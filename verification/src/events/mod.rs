//! Event generators: audio spectrum bands and MIDI notes.

pub mod fft_generator;
pub mod midi_generator;

use std::collections::VecDeque;

use vstd::prelude::*;

use crate::text::str_equal;

verus! {

/// The device to listen to: the one found, else "default".
pub fn device_or_default(found: Option<String>) -> (device: String)
    ensures
        match found {
            Some(d) => device@ == d@,
            None => device@ == "default"@,
        },
{
    match found {
        Some(d) => d,
        None => String::from_str("default"),
    }
}

/// Whether entry `i` of a device list is a device called `name` (its name
/// could be read and equals `name`).
pub open spec fn names_device(names: Seq<Option<String>>, i: int, name: Seq<char>) -> bool {
    names[i] matches Some(n) && n@ == name
}

/// Whether `i` is the first device called `name`.
pub open spec fn is_first_device(names: Seq<Option<String>>, i: int, name: Seq<char>) -> bool {
    &&& 0 <= i < names.len()
    &&& names_device(names, i, name)
    &&& forall|j: int| 0 <= j < i ==> !#[trigger] names_device(names, j, name)
}

/// Whether no device is called `name`.
pub open spec fn no_device(names: Seq<Option<String>>, name: Seq<char>) -> bool {
    forall|j: int| 0 <= j < names.len() ==> !#[trigger] names_device(names, j, name)
}

/// The index of the first device whose name could be read and equals
/// `name`.
pub fn find_device(names: &Vec<Option<String>>, name: &str) -> (r: Option<usize>)
    ensures
        match r {
            Some(i) => is_first_device(names@, i as int, name@),
            None => no_device(names@, name@),
        },
{
    let mut i: usize = 0;
    while i < names.len()
        invariant
            i <= names@.len(),
            forall|j: int| 0 <= j < i ==> !#[trigger] names_device(names@, j, name@),
        decreases names@.len() - i,
    {
        let found = match &names[i] {
            Some(n) => str_equal(n.as_str(), name),
            None => false,
        };
        if found {
            return Some(i);
        }
        i = i + 1;
    }
    None
}

/// The audio input device called `name`: the first one, or the error
/// "Device '<name>' not found".
pub fn select_audio_device(names: &Vec<Option<String>>, name: &str) -> (r: Result<usize, String>)
    ensures
        match r {
            Ok(i) => is_first_device(names@, i as int, name@),
            Err(m) => no_device(names@, name@) && m@ == "Device '"@ + name@ + "' not found"@,
        },
{
    match find_device(names, name) {
        Some(i) => Ok(i),
        None => Err(String::from_str("Device '").concat(name).concat("' not found")),
    }
}

/// The MIDI input port called `name`: the first one, or the error
/// "Selected MIDI port not found: <name>".
pub fn select_midi_port(names: &Vec<Option<String>>, name: &str) -> (r: Result<usize, String>)
    ensures
        match r {
            Ok(i) => is_first_device(names@, i as int, name@),
            Err(m) => no_device(names@, name@) && m@ == "Selected MIDI port not found: "@ + name@,
        },
{
    match find_device(names, name) {
        Some(i) => Ok(i),
        None => Err(String::from_str("Selected MIDI port not found: ").concat(name)),
    }
}

/// The sample window after `data` arrived: the newest sample first, then
/// the earlier ones in reverse order of arrival, then the samples that were
/// there before; the window keeps its length, so the oldest fall out.
pub open spec fn window_after<T>(window: Seq<T>, data: Seq<T>) -> Seq<T> {
    Seq::new(
        window.len(),
        |j: int|
            if j < data.len() {
                data[data.len() - 1 - j]
            } else {
                window[j - data.len()]
            },
    )
}

/// Adds incoming samples to the window: each one goes to the front and the
/// oldest leaves at the back.
pub fn push_samples<T: Copy>(window: &mut VecDeque<T>, data: &[T])
    ensures
        final(window)@ == window_after(old(window)@, data@),
        final(window)@.len() == old(window)@.len(),
{
    let ghost start = window@;
    let mut i: usize = 0;
    while i < data.len()
        invariant
            i <= data@.len(),
            window@ == window_after(start, data@.take(i as int)),
        decreases data@.len() - i,
    {
        let sample = data[i];
        let ghost before = window@;
        window.push_front(sample);
        let _ = window.pop_back();
        proof {
            let next = data@.take(i + 1);
            assert(next.len() == i + 1);
            assert(window@ =~= window_after(start, next)) by {
                assert forall|j: int| 0 <= j < window@.len() implies window@[j] == window_after(
                    start,
                    next,
                )[j] by {
                    if j > 0 {
                        assert(window@[j] == before[j - 1]);
                    }
                }
            }
        }
        i = i + 1;
    }
    assert(data@.take(data@.len() as int) =~= data@);
}

/// However the samples are split into chunks, the window ends the same:
/// adding `a` and then `b` gives the window that adding `a` followed by
/// `b` at once gives.
pub proof fn lemma_chunks_do_not_matter<T>(window: Seq<T>, a: Seq<T>, b: Seq<T>)
    ensures
        window_after(window_after(window, a), b) == window_after(window, a + b),
{
    assert(window_after(window_after(window, a), b) =~= window_after(window, a + b));
}

} // verus!
