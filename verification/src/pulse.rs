//! The logic of the plugin that controls the volume of the audio sinks.
use crate::protocol::{PluginResponse, PluginSearchResult};
use crate::search::has_prefix;
use crate::text::{ascii_lowercase, chars_of, contains, contains_seq, starts_with, string_of, sub_chars, to_ascii_lowercase, trim, trim_seq};
use vstd::prelude::*;
use vstd::string::StrSliceExecFns;

verus! {

/// An action on the audio sinks.
#[derive(Debug, Clone)]
pub struct Selection {
    pub id: u32,
    pub name: String,
    pub description: String,
}

/// The actions offered: muting, raising and lowering the volume.
pub fn selections() -> (s: Vec<Selection>)
    ensures
        s@.len() == 3,
        s@[0].id == 0 && s@[0].name@ == "Toggle Mute"@ && s@[0].description@ == "Silence and unsilence the default audio sink"@,
        s@[1].id == 1 && s@[1].name@ == "Volume Up"@ && s@[1].description@ == "Raise volume 5%"@,
        s@[2].id == 2 && s@[2].name@ == "Volume Down"@ && s@[2].description@ == "Lower volume 5%"@,
{
    vec![
        Selection {
            id: 0,
            name: "Toggle Mute".to_owned(),
            description: "Silence and unsilence the default audio sink".to_owned(),
        },
        Selection { id: 1, name: "Volume Up".to_owned(), description: "Raise volume 5%".to_owned() },
        Selection { id: 2, name: "Volume Down".to_owned(), description: "Lower volume 5%".to_owned() },
    ]
}

/// An action is shown for the lower-case query `q` when its name or description holds it,
/// ignoring ASCII case.
pub open spec fn selection_shown(s: Selection, q: Seq<char>) -> bool {
    contains_seq(ascii_lowercase(s.name@), q) || contains_seq(ascii_lowercase(s.description@), q)
}

/// The positions of the first `n` actions shown for `q`, in order.
pub open spec fn shown_selections(sel: Seq<Selection>, q: Seq<char>, n: int) -> Seq<int>
    decreases n,
{
    if n <= 0 {
        Seq::empty()
    } else if selection_shown(sel[n - 1], q) {
        shown_selections(sel, q, n - 1).push(n - 1)
    } else {
        shown_selections(sel, q, n - 1)
    }
}

/// `resp` shows the action `s`.
pub open spec fn selection_response(resp: PluginResponse, s: Selection) -> bool {
    match resp {
        PluginResponse::Append(r) => r.id == s.id && r.name == s.name && r.description == s.description
            && r.keywords is None && r.icon is None && r.exec_command is None && r.window is None,
        _ => false,
    }
}

/// Answers a search for `query`: for a query that is not empty, the actions that its lower-case
/// form finds; then `Finished`.
pub fn search(sel: &Vec<Selection>, query: &str) -> (rs: Vec<PluginResponse>)
    ensures
        ({
            let q = ascii_lowercase(query@);
            let shown = if query@.len() == 0 { Seq::<int>::empty() } else { shown_selections(sel@, q, sel@.len() as int) };
            &&& rs@.len() == shown.len() + 1
            &&& forall|k: int| 0 <= k < shown.len() ==> selection_response(#[trigger] rs@[k], sel@[shown[k]])
            &&& rs@.last() is Finished
        }),
{
    let mut rs: Vec<PluginResponse> = Vec::new();
    let q = to_ascii_lowercase(&chars_of(query));
    if query.unicode_len() > 0 {
        let mut i: usize = 0;
        while i < sel.len()
            invariant
                q@ == ascii_lowercase(query@),
                0 <= i <= sel@.len(),
                rs@.len() == shown_selections(sel@, q@, i as int).len(),
                forall|k: int|
                    0 <= k < rs@.len() ==> selection_response(#[trigger] rs@[k], sel@[shown_selections(sel@, q@, i as int)[k]]),
            decreases sel@.len() - i,
        {
            let s = &sel[i];
            if contains(&to_ascii_lowercase(&chars_of(s.name.as_str())), &q) || contains(
                &to_ascii_lowercase(&chars_of(s.description.as_str())),
                &q,
            ) {
                rs.push(
                    PluginResponse::Append(
                        PluginSearchResult {
                            id: s.id,
                            name: s.name.clone(),
                            description: s.description.clone(),
                            keywords: None,
                            icon: None,
                            exec_command: None,
                            window: None,
                        },
                    ),
                );
            }
            i = i + 1;
        }
    }
    let ghost before = rs@;
    rs.push(PluginResponse::Finished);
    proof {
        assert forall|k: int| 0 <= k < before.len() implies rs@[k] == before[k] by {}
    }
    rs
}

/// The `pactl` command that an action runs on a sink: muting, or changing the volume by 5%.
pub fn action_command(id: u32) -> (r: Option<(String, String)>)
    ensures
        id == 0 ==> (r matches Some(c) && c.0@ == "set-sink-mute"@ && c.1@ == "toggle"@),
        id == 1 ==> (r matches Some(c) && c.0@ == "set-sink-volume"@ && c.1@ == "+5%"@),
        id == 2 ==> (r matches Some(c) && c.0@ == "set-sink-volume"@ && c.1@ == "-5%"@),
        id > 2 ==> r is None,
{
    if id == 0 {
        Some(("set-sink-mute".to_owned(), "toggle".to_owned()))
    } else if id == 1 {
        Some(("set-sink-volume".to_owned(), "+5%".to_owned()))
    } else if id == 2 {
        Some(("set-sink-volume".to_owned(), "-5%".to_owned()))
    } else {
        None
    }
}

/// The sink that a line of `pactl list sinks` introduces: the trimmed text after `Sink #`.
pub fn sink_of_line(line: &str) -> (r: Option<String>)
    ensures
        match r {
            Some(s) => has_prefix(line@, "Sink #"@) && s@ == trim_seq(line@.subrange(6, line@.len() as int)),
            None => !has_prefix(line@, "Sink #"@),
        },
{
    if starts_with(line, "Sink #") {
        proof {
            reveal_strlit("Sink #");
        }
        let cs = chars_of(line);
        Some(string_of(&trim(&sub_chars(&cs, 6, cs.len()))))
    } else {
        None
    }
}

} // verus!
