//! Choosing a MIDI port by the configured device name prefixes.
use vstd::prelude::*;

use crate::config::string_views;
use crate::text::{push_text, text_starts_with};

verus! {

/// Why no port could be chosen.
#[derive(Debug)]
pub enum PortError {
    /// There is no port of this type at all.
    NoPortsAvailable { port_type: String },
    /// No port name starts with any of the configured prefixes.
    NoMatchingDevice { port_type: String, preferred_prefixes: Vec<String> },
}

/// The text that `{:?}` writes for a list of strings: each one quoted, with
/// escapes, between square brackets and separated by a comma and a space.
pub uninterp spec fn debug_string_list(names: Seq<Seq<char>>) -> Seq<char>;

/// Renders `names` with std's `Debug` formatting for a slice of `String`
/// (`format!("{:?}", names)`).
///
/// The contract names the text and does not spell it out: which characters are
/// escaped, and how, follows Unicode tables in std. It says only that the text
/// is the same for the same names.
#[verifier::external_body]
fn debug_string_list_text(names: &[String]) -> (text: String)
    ensures
        text@ == debug_string_list(string_views(names@)),
{
    format!("{:?}", names)
}

/// The text that reports a port error.
pub open spec fn port_error_text(e: PortError) -> Seq<char> {
    match e {
        PortError::NoPortsAvailable { port_type } => "no MIDI "@ + port_type@
            + " ports available"@,
        PortError::NoMatchingDevice { port_type, preferred_prefixes } => "could not find configured MIDI "@
            + port_type@ + " device. configured prefixes: "@ + debug_string_list(
            string_views(preferred_prefixes@),
        ),
    }
}

impl PortError {
    /// The text that reports this error.
    pub fn message(&self) -> (text: String)
        ensures
            text@ == port_error_text(*self),
    {
        let mut s = String::new();
        match self {
            PortError::NoPortsAvailable { port_type } => {
                push_text(&mut s, "no MIDI ");
                push_text(&mut s, port_type.as_str());
                push_text(&mut s, " ports available");
            },
            PortError::NoMatchingDevice { port_type, preferred_prefixes } => {
                push_text(&mut s, "could not find configured MIDI ");
                push_text(&mut s, port_type.as_str());
                push_text(&mut s, " device. configured prefixes: ");
                let listed = debug_string_list_text(preferred_prefixes.as_slice());
                push_text(&mut s, listed.as_str());
            },
        }
        s
    }
}

/// Whether some name in `names` starts with `prefix`.
pub open spec fn some_name_starts_with(names: Seq<Seq<char>>, prefix: Seq<char>) -> bool {
    exists|i: int| 0 <= i < names.len() && prefix.is_prefix_of(#[trigger] names[i])
}

/// Whether `index` is the port to choose: among the prefixes in their order of
/// priority, the first one that some name starts with is at `p`, and `index`
/// is the first name that starts with it.
pub open spec fn is_selected_port(
    names: Seq<Seq<char>>,
    prefixes: Seq<Seq<char>>,
    p: int,
    index: int,
) -> bool {
    &&& 0 <= p < prefixes.len()
    &&& 0 <= index < names.len()
    &&& prefixes[p].is_prefix_of(names[index])
    &&& forall|q: int| 0 <= q < p ==> !some_name_starts_with(names, #[trigger] prefixes[q])
    &&& forall|j: int| 0 <= j < index ==> !prefixes[p].is_prefix_of(#[trigger] names[j])
}

/// Whether `index` is the port to choose, for some priority `p` as
/// `is_selected_port` describes.
pub open spec fn is_selected_port_index(
    names: Seq<Seq<char>>,
    prefixes: Seq<Seq<char>>,
    index: int,
) -> bool {
    exists|p: int| #[trigger] is_selected_port(names, prefixes, p, index)
}

fn clone_strings(names: &[String]) -> (copy: Vec<String>)
    ensures
        copy@ == names@,
{
    let mut copy: Vec<String> = Vec::new();
    let mut i: usize = 0;
    while i < names.len()
        invariant
            i <= names.len(),
            copy@ == names@.take(i as int),
        decreases names.len() - i,
    {
        copy.push(names[i].clone());
        assert(copy@ =~= names@.take(i + 1));
        i = i + 1;
    }
    assert(names@.take(names.len() as int) =~= names@);
    copy
}

/// The index of the port to use: the prefixes are tried in order, and for the
/// first one that some port name starts with, the first such port is chosen.
pub fn select_port_index(
    available_port_names: &[String],
    preferred_prefixes: &[String],
    port_type: &str,
) -> (res: Result<usize, PortError>)
    ensures
        match res {
            Ok(index) => is_selected_port_index(
                string_views(available_port_names@),
                string_views(preferred_prefixes@),
                index as int,
            ),
            Err(PortError::NoPortsAvailable { port_type: t }) => available_port_names@.len()
                == 0 && t@ == port_type@,
            Err(PortError::NoMatchingDevice { port_type: t, preferred_prefixes: listed }) => {
                &&& available_port_names@.len() > 0
                &&& forall|p: int|
                    0 <= p < preferred_prefixes@.len() ==> !some_name_starts_with(
                        string_views(available_port_names@),
                        #[trigger] string_views(preferred_prefixes@)[p],
                    )
                &&& t@ == port_type@
                &&& listed@ == preferred_prefixes@
            },
        },
{
    let ghost names = string_views(available_port_names@);
    let ghost prefixes = string_views(preferred_prefixes@);
    if available_port_names.len() == 0 {
        return Err(PortError::NoPortsAvailable { port_type: String::from_str(port_type) });
    }
    let mut p: usize = 0;
    while p < preferred_prefixes.len()
        invariant
            p <= preferred_prefixes.len(),
            names == string_views(available_port_names@),
            prefixes == string_views(preferred_prefixes@),
            forall|q: int| 0 <= q < p ==> !some_name_starts_with(names, #[trigger] prefixes[q]),
        decreases preferred_prefixes.len() - p,
    {
        let prefix = preferred_prefixes[p].as_str();
        let mut index: usize = 0;
        while index < available_port_names.len()
            invariant
                p < preferred_prefixes.len(),
                index <= available_port_names.len(),
                names == string_views(available_port_names@),
                prefixes == string_views(preferred_prefixes@),
                prefix@ == prefixes[p as int],
                forall|q: int|
                    0 <= q < p ==> !some_name_starts_with(names, #[trigger] prefixes[q]),
                forall|j: int| 0 <= j < index ==> !prefix@.is_prefix_of(#[trigger] names[j]),
            decreases available_port_names.len() - index,
        {
            if text_starts_with(available_port_names[index].as_str(), prefix) {
                assert(is_selected_port(names, prefixes, p as int, index as int));
                return Ok(index);
            }
            index = index + 1;
        }
        assert(!some_name_starts_with(names, prefixes[p as int]));
        p = p + 1;
    }
    Err(
        PortError::NoMatchingDevice {
            port_type: String::from_str(port_type),
            preferred_prefixes: clone_strings(preferred_prefixes),
        },
    )
}

} // verus!
