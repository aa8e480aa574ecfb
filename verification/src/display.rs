use vstd::prelude::*;

use crate::text::{is_blank, is_blank_seq, push_str, string_of};

verus! {

/// Connection state of a console event stream.
#[derive(Clone, Copy, Debug, PartialEq, Eq, Structural)]
pub enum StreamState {
    Idle,
    Connecting,
    Live,
    Reconnecting,
    Error,
}

impl Default for StreamState {
    fn default() -> (s: Self)
        ensures
            s == StreamState::Idle,
    {
        StreamState::Idle
    }
}

/// The console's placeholder for a missing value.
pub open spec fn dash() -> Seq<char> {
    seq!['-']
}

/// The non-blank entries of `s`, in order.
pub open spec fn non_blank(s: Seq<Seq<char>>) -> Seq<Seq<char>>
    decreases s.len(),
{
    if s.len() == 0 {
        s
    } else if is_blank_seq(s.last()) {
        non_blank(s.drop_last())
    } else {
        non_blank(s.drop_last()).push(s.last())
    }
}

/// The entries of `s` joined by `sep`.
pub open spec fn join(s: Seq<Seq<char>>, sep: Seq<char>) -> Seq<char>
    decreases s.len(),
{
    if s.len() == 0 {
        Seq::empty()
    } else if s.len() == 1 {
        s[0]
    } else {
        join(s.drop_last(), sep) + sep + s.last()
    }
}

/// The views of a list of strings.
pub open spec fn views(v: Seq<String>) -> Seq<Seq<char>> {
    v.map_values(|s: String| s@)
}

/// What `format_list` renders: the non-blank values joined by ", ", or "-" when none is left.
pub open spec fn spec_format_list(values: Seq<Seq<char>>) -> Seq<char> {
    let kept = non_blank(values);
    if kept.len() == 0 {
        dash()
    } else {
        join(kept, seq![',', ' '])
    }
}

/// What `format_optional` renders: the text, or "-" when it is missing or blank.
pub open spec fn spec_format_optional(value: Option<Seq<char>>) -> Seq<char> {
    match value {
        Some(text) => if is_blank_seq(text) {
            dash()
        } else {
            text
        },
        None => dash(),
    }
}

/// CSS class fragment for a stream state.
pub open spec fn spec_stream_state_label(state: StreamState) -> Seq<char> {
    match state {
        StreamState::Idle => "idle"@,
        StreamState::Connecting => "connecting"@,
        StreamState::Live => "live"@,
        StreamState::Reconnecting => "reconnecting"@,
        StreamState::Error => "error"@,
    }
}

/// A new "-".
pub fn dash_string() -> (s: String)
    ensures
        s@ == dash(),
{
    let s = string_of("-");
    proof {
        reveal_strlit("-");
    }
    s
}

/// Joins the non-blank values with ", ", or renders "-" when no value is left.
pub fn format_list(values: &Vec<String>) -> (out: String)
    ensures
        out@ == spec_format_list(views(values@)),
{
    let mut out = String::new();
    let mut count: usize = 0;
    let mut i: usize = 0;
    while i < values.len()
        invariant
            i <= values@.len(),
            count <= i,
            count == non_blank(views(values@).take(i as int)).len(),
            out@ == join(non_blank(views(values@).take(i as int)), seq![',', ' ']),
        decreases values@.len() - i,
    {
        let ghost before = views(values@).take(i as int);
        assert(views(values@).take(i + 1).drop_last() =~= before);
        assert(views(values@).take(i + 1).last() == values@[i as int]@);
        let item = values[i].as_str();
        if !is_blank(item) {
            if count > 0 {
                push_str(&mut out, ", ");
                proof {
                    reveal_strlit(", ");
                }
            }
            push_str(&mut out, item);
            proof {
                let kept = non_blank(before);
                assert(kept.push(values@[i as int]@).drop_last() =~= kept);
            }
            count = count + 1;
        }
        i = i + 1;
    }
    assert(views(values@).take(values@.len() as int) =~= views(values@));
    if count == 0 {
        dash_string()
    } else {
        out
    }
}

/// The text itself, or "-" when it is missing or blank.
pub fn format_optional(value: Option<&str>) -> (out: String)
    ensures
        out@ == spec_format_optional(
            match value {
                Some(t) => Some(t@),
                None => None,
            },
        ),
{
    match value {
        Some(text) => {
            if is_blank(text) {
                dash_string()
            } else {
                string_of(text)
            }
        },
        None => dash_string(),
    }
}

/// `true_label`, `false_label`, or "-" when the flag is unknown.
pub fn format_bool(value: Option<bool>, true_label: &str, false_label: &str) -> (out: String)
    ensures
        out@ == match value {
            Some(true) => true_label@,
            Some(false) => false_label@,
            None => dash(),
        },
{
    match value {
        Some(true) => string_of(true_label),
        Some(false) => string_of(false_label),
        None => dash_string(),
    }
}

pub fn stream_state_label(state: StreamState) -> (label: &'static str)
    ensures
        label@ == spec_stream_state_label(state),
{
    match state {
        StreamState::Idle => "idle",
        StreamState::Connecting => "connecting",
        StreamState::Live => "live",
        StreamState::Reconnecting => "reconnecting",
        StreamState::Error => "error",
    }
}

} // verus!
