//! The graphics cards of the system, and how a program is launched on one of them.
use crate::text::{chars_of, contains, contains_seq, str_eq};
use vstd::prelude::*;
use vstd::string::StringExecFns;

verus! {

/// The kernel driver of a graphics card.
#[derive(Debug, Clone)]
pub enum Driver {
    Intel,
    Amd(String),
    Nvidia,
    Unknown,
}

impl Driver {
    /// The driver that udev reports by name.
    pub fn from_udev(driver: Option<&str>) -> (d: Driver)
        ensures
            match driver {
                Some(n) => if n@ == "radeon"@ || n@ == "amdgpu"@ {
                    d matches Driver::Amd(x) && x@ == n@
                } else if n@ == "nvidia"@ {
                    d is Nvidia
                } else if n@ == "iris"@ || n@ == "i915"@ || n@ == "i965"@ {
                    d is Intel
                } else {
                    d is Unknown
                },
                None => d is Unknown,
            },
    {
        match driver {
            Some(n) => if str_eq(n, "radeon") {
                Driver::Amd("radeon".to_owned())
            } else if str_eq(n, "amdgpu") {
                Driver::Amd("amdgpu".to_owned())
            } else if str_eq(n, "nvidia") {
                Driver::Nvidia
            } else if str_eq(n, "iris") || str_eq(n, "i915") || str_eq(n, "i965") {
                Driver::Intel
            } else {
                Driver::Unknown
            },
            None => Driver::Unknown,
        }
    }

    /// The name under which the driver's Vulkan files are found.
    pub open spec fn spec_name(&self) -> Option<Seq<char>> {
        match self {
            Driver::Intel => Some("intel"@),
            Driver::Amd(d) => Some(d@),
            Driver::Nvidia => Some("nvidia"@),
            Driver::Unknown => None,
        }
    }

    /// The name under which the driver's Vulkan files are found.
    pub fn as_str(&self) -> (r: Option<&str>)
        ensures
            match r {
                Some(s) => self.spec_name() == Some(s@),
                None => self.spec_name() is None,
            },
    {
        match self {
            Driver::Intel => Some("intel"),
            Driver::Amd(d) => Some(d.as_str()),
            Driver::Nvidia => Some("nvidia"),
            Driver::Unknown => None,
        }
    }
}

} // verus!

verus! {

/// A graphics card.
#[derive(Debug, Clone)]
pub struct Dev {
    /// The system number of its device node.
    pub id: usize,
    pub driver: Driver,
    /// The card that the system boots with.
    pub is_default: bool,
    /// The system path of the card, shared by all its device nodes.
    pub parent_path: String,
}

impl Dev {
    /// A copy of the device.
    pub fn duplicate(&self) -> (d: Dev)
        ensures
            d == *self,
    {
        let driver = match &self.driver {
            Driver::Intel => Driver::Intel,
            Driver::Amd(n) => Driver::Amd(n.clone()),
            Driver::Nvidia => Driver::Nvidia,
            Driver::Unknown => Driver::Unknown,
        };
        Dev { id: self.id, driver, is_default: self.is_default, parent_path: self.parent_path.clone() }
    }
}

/// The graphics cards: the default one, and the others.
#[derive(Debug)]
pub struct Gpus {
    pub devices: Vec<Dev>,
    pub default: Option<Dev>,
}

/// The position of the last default card among `devs`, if any.
pub open spec fn last_default(devs: Seq<Dev>) -> Option<int>
    decreases devs.len(),
{
    if devs.len() == 0 {
        None
    } else if devs.last().is_default {
        Some(devs.len() - 1)
    } else {
        last_default(devs.drop_last())
    }
}

/// The cards of `devs` that are not the default one, in order.
pub open spec fn non_defaults(devs: Seq<Dev>) -> Seq<Dev>
    decreases devs.len(),
{
    if devs.len() == 0 {
        Seq::empty()
    } else if devs.last().is_default {
        non_defaults(devs.drop_last())
    } else {
        non_defaults(devs.drop_last()).push(devs.last())
    }
}

impl Gpus {
    /// Sorts the cards found into the default one (the last one marked so) and the others.
    pub fn load(devs: Vec<Dev>) -> (g: Gpus)
        ensures
            g.devices@ == non_defaults(devs@),
            match last_default(devs@) {
                Some(i) => g.default == Some(devs@[i]),
                None => g.default is None,
            },
    {
        let ghost all = devs@;
        let mut g = Gpus { devices: Vec::new(), default: None };
        let mut rest = devs;
        let mut taken: Vec<Dev> = Vec::new();
        proof {
            assert(all.take(0) =~= Seq::<Dev>::empty());
        }
        let n = rest.len();
        let mut i: usize = 0;
        while i < n
            invariant
                n == all.len(),
                0 <= i <= n,
                rest@ == all.subrange(i as int, n as int),
                g.devices@ == non_defaults(all.take(i as int)),
                match last_default(all.take(i as int)) {
                    Some(k) => g.default == Some(all[k]),
                    None => g.default is None,
                },
            decreases n - i,
        {
            let dev = rest.remove(0);
            proof {
                assert(dev == all[i as int]);
                assert(all.take(i + 1).drop_last() =~= all.take(i as int));
                assert(all.take(i + 1).last() == dev);
                assert(rest@ =~= all.subrange(i + 1, n as int));
            }
            if dev.is_default {
                g.default = Some(dev);
            } else {
                g.devices.push(dev);
            }
            i = i + 1;
        }
        proof {
            assert(all.take(n as int) =~= all);
        }
        g
    }

    /// There is at least one card other than the default one.
    pub fn is_switchable(&self) -> (b: bool)
        ensures
            b == (self.devices@.len() > 0),
    {
        self.devices.len() > 0
    }

    /// The default card.
    pub fn get_default(&self) -> (d: Option<&Dev>)
        ensures
            match d {
                Some(x) => self.default == Some(*x),
                None => self.default is None,
            },
    {
        match &self.default {
            Some(x) => Some(x),
            None => None,
        }
    }

    /// The first card other than the default one: the desktop entry specification does not say
    /// which card a program that prefers a non-default card should use, and most machines have
    /// at most one other card.
    pub fn non_default(&self) -> (d: Option<&Dev>)
        ensures
            match d {
                Some(x) => self.devices@.len() > 0 && *x == self.devices@[0],
                None => self.devices@.len() == 0,
            },
    {
        if self.devices.len() > 0 {
            Some(&self.devices[0])
        } else {
            None
        }
    }
}

/// The device at `i` represents its card: no other device of the same card has a smaller
/// number, or the same number earlier in the list.
pub open spec fn represents_card(devs: Seq<Dev>, i: int) -> bool {
    forall|j: int|
        0 <= j < devs.len() && j != i && #[trigger] devs[j].parent_path@ == devs[i].parent_path@ ==> devs[i].id
            < devs[j].id || (devs[i].id == devs[j].id && i < j)
}

/// The positions among the first `n` of the devices that represent their card, in order.
pub open spec fn card_positions(devs: Seq<Dev>, n: int) -> Seq<int>
    decreases n,
{
    if n <= 0 {
        Seq::empty()
    } else if represents_card(devs, n - 1) {
        card_positions(devs, n - 1).push(n - 1)
    } else {
        card_positions(devs, n - 1)
    }
}

/// Keeps one device node per card: the one with the smallest number, the first in the list
/// among equals. The devices kept stay in the order of the list.
pub fn select_gpus(devs: &Vec<Dev>) -> (r: Vec<Dev>)
    ensures
        r@.len() == card_positions(devs@, devs@.len() as int).len(),
        forall|k: int| 0 <= k < r@.len() ==> #[trigger] r@[k] == devs@[card_positions(devs@, devs@.len() as int)[k]],
{
    let mut r: Vec<Dev> = Vec::new();
    let mut i: usize = 0;
    while i < devs.len()
        invariant
            0 <= i <= devs@.len(),
            r@.len() == card_positions(devs@, i as int).len(),
            forall|k: int| 0 <= k < r@.len() ==> #[trigger] r@[k] == devs@[card_positions(devs@, i as int)[k]],
        decreases devs@.len() - i,
    {
        let mut keep = true;
        let mut j: usize = 0;
        while j < devs.len()
            invariant
                0 <= i < devs@.len(),
                0 <= j <= devs@.len(),
                keep == forall|t: int|
                    0 <= t < j && t != i && #[trigger] devs@[t].parent_path@ == devs@[i as int].parent_path@
                        ==> devs@[i as int].id < devs@[t].id || (devs@[i as int].id == devs@[t].id && i < t),
            decreases devs@.len() - j,
        {
            if j != i && str_eq(devs[j].parent_path.as_str(), devs[i].parent_path.as_str()) {
                if !(devs[i].id < devs[j].id || (devs[i].id == devs[j].id && i < j)) {
                    keep = false;
                }
            }
            j = j + 1;
        }
        if keep {
            r.push(devs[i].duplicate());
        }
        i = i + 1;
    }
    r
}

} // verus!

verus! {

/// The environment that selects the card `d` for the program launched.
pub open spec fn driver_options(d: Dev) -> Seq<(Seq<char>, Seq<char>)> {
    match d.driver {
        Driver::Nvidia => seq![
            ("__GLX_VENDOR_LIBRARY_NAME"@, "nvidia"@),
            ("__NV_PRIME_RENDER_OFFLOAD"@, "1"@),
            ("__VK_LAYER_NV_optimus"@, "NVIDIA_only"@),
        ],
        _ => seq![("DRI_PRIME"@, crate::text::decimal(d.id as nat))],
    }
}

/// The first `n` of `files` whose path holds `name`, in order.
pub open spec fn icd_matching(files: Seq<Seq<char>>, name: Seq<char>, n: int) -> Seq<Seq<char>>
    decreases n,
{
    if n <= 0 {
        Seq::empty()
    } else if contains_seq(files[n - 1], name) {
        icd_matching(files, name, n - 1).push(files[n - 1])
    } else {
        icd_matching(files, name, n - 1)
    }
}

/// The Vulkan driver files of `files` that belong to the driver of `d`.
pub open spec fn vulkan_files(d: Dev, files: Seq<Seq<char>>) -> Seq<Seq<char>> {
    match d.driver.spec_name() {
        Some(name) => icd_matching(files, name, files.len() as int),
        None => Seq::empty(),
    }
}

impl Dev {
    /// The Vulkan driver files among `files` that belong to this card's driver.
    pub fn vulkan_icd_paths(&self, files: &Vec<String>) -> (r: Vec<String>)
        ensures
            crate::text::views(r@) == vulkan_files(*self, crate::text::views(files@)),
    {
        let mut r: Vec<String> = Vec::new();
        let name = match self.driver.as_str() {
            Some(n) => chars_of(n),
            None => {
                return r;
            },
        };
        let ghost fs = crate::text::views(files@);
        let mut i: usize = 0;
        while i < files.len()
            invariant
                fs == crate::text::views(files@),
                self.driver.spec_name() == Some(name@),
                0 <= i <= files@.len(),
                crate::text::views(r@) == icd_matching(fs, name@, i as int),
            decreases files@.len() - i,
        {
            let path = chars_of(files[i].as_str());
            if contains(&path, &name) {
                proof {
                    assert(crate::text::views(r@.push(files@[i as int])) =~= crate::text::views(r@).push(fs[i as int]));
                }
                r.push(files[i].clone());
            }
            i = i + 1;
        }
        r
    }

    /// The environment to launch a program on this card. `icd_files` lists the files of the
    /// Vulkan driver directories, `None` when they could not be read; the files of this card's
    /// driver are named in `VK_ICD_FILENAMES`, separated by `:`, when there are any.
    pub fn launch_options(&self, icd_files: &Option<Vec<String>>) -> (r: Vec<(String, String)>)
        ensures
            crate::text::pairs_view(r@) == driver_options(*self) + match icd_files {
                Some(fs) => if vulkan_files(*self, crate::text::views(fs@)).len() > 0 {
                    seq![(
                        "VK_ICD_FILENAMES"@,
                        crate::text::join_with(vulkan_files(*self, crate::text::views(fs@)), ":"@),
                    )]
                } else {
                    Seq::empty()
                },
                None => Seq::empty(),
            },
    {
        let mut options: Vec<(String, String)> = Vec::new();
        match &self.driver {
            Driver::Nvidia => {
                options.push(("__GLX_VENDOR_LIBRARY_NAME".to_owned(), "nvidia".to_owned()));
                options.push(("__NV_PRIME_RENDER_OFFLOAD".to_owned(), "1".to_owned()));
                options.push(("__VK_LAYER_NV_optimus".to_owned(), "NVIDIA_only".to_owned()));
            },
            _ => {
                options.push(("DRI_PRIME".to_owned(), crate::text::decimal_string(self.id)));
            },
        }
        proof {
            assert(crate::text::pairs_view(options@) =~= driver_options(*self));
        }
        match icd_files {
            Some(fs) => {
                let paths = self.vulkan_icd_paths(fs);
                if paths.len() > 0 {
                    let joined = crate::text::join(&paths, ":");
                    let ghost before = options@;
                    options.push(("VK_ICD_FILENAMES".to_owned(), joined));
                    proof {
                        assert(crate::text::pairs_view(options@) =~= crate::text::pairs_view(before).push(
                            ("VK_ICD_FILENAMES"@, joined@),
                        ));
                    }
                } else {
                    proof {
                        assert(driver_options(*self) + Seq::<(Seq<char>, Seq<char>)>::empty() =~= driver_options(*self));
                    }
                }
            },
            None => {
                proof {
                    assert(driver_options(*self) + Seq::<(Seq<char>, Seq<char>)>::empty() =~= driver_options(*self));
                }
            },
        }
        options
    }
}

} // verus!
