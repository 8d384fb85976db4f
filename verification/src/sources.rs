//! The choice of capture devices from the listing of the sound server: one
//! device per line, its name in the second of the fields that tabs separate.

use crate::text::{
    chars_contain, chars_of, copy_range, has_substring, lemma_texts_push, pieces, split,
    split_ranges, texts,
};
use vstd::prelude::*;

verus! {

/// The name of the device that a line of the listing describes: its second
/// field, if it has one.
pub open spec fn source_of(line: Seq<char>) -> Option<Seq<char>> {
    let fields = split(line, '\t');
    if fields.len() < 2 {
        None
    } else {
        Some(fields[1])
    }
}

/// Whether a device is taken: it is a USB device and no monitor of a sink, its
/// name holds `only` if that is given, and does not hold `except` if that is
/// given.
pub open spec fn accepted(
    source: Seq<char>,
    only: Option<Seq<char>>,
    except: Option<Seq<char>>,
) -> bool {
    &&& !has_substring(source, "monitor"@)
    &&& has_substring(source, "usb"@)
    &&& match only {
        Some(wanted) => has_substring(source, wanted),
        None => true,
    }
    &&& match except {
        Some(unwanted) => !has_substring(source, unwanted),
        None => true,
    }
}

/// The devices that are taken from the lines of a listing, in the order of
/// the lines.
pub open spec fn sources_of(
    lines: Seq<Seq<char>>,
    only: Option<Seq<char>>,
    except: Option<Seq<char>>,
) -> Seq<Seq<char>>
    decreases lines.len(),
{
    if lines.len() == 0 {
        Seq::empty()
    } else {
        let before = sources_of(lines.drop_last(), only, except);
        match source_of(lines.last()) {
            Some(source) => if accepted(source, only, except) {
                before.push(source)
            } else {
                before
            },
            None => before,
        }
    }
}

/// The devices that are taken from a listing.
pub open spec fn listed_sources(
    listing: Seq<char>,
    only: Option<Seq<char>>,
    except: Option<Seq<char>>,
) -> Seq<Seq<char>> {
    sources_of(split(listing, '\n'), only, except)
}

/// The characters of a string that may be absent.
pub open spec fn text_of(string: Option<&String>) -> Option<Seq<char>> {
    match string {
        Some(s) => Some(s@),
        None => None,
    }
}

/// The characters of a string that may be absent.
fn chars_of_filter(filter: Option<&String>) -> (chars: Option<Vec<char>>)
    ensures
        match chars {
            Some(c) => text_of(filter) == Some(c@),
            None => text_of(filter) == None::<Seq<char>>,
        },
{
    match filter {
        Some(s) => Some(chars_of(s.as_str())),
        None => None,
    }
}

/// Whether a device is taken.
fn accepts(
    source: &Vec<char>,
    monitor: &Vec<char>,
    usb: &Vec<char>,
    only: &Option<Vec<char>>,
    except: &Option<Vec<char>>,
) -> (taken: bool)
    requires
        monitor@ == "monitor"@,
        usb@ == "usb"@,
    ensures
        taken == accepted(
            source@,
            match only {
                Some(c) => Some(c@),
                None => None,
            },
            match except {
                Some(c) => Some(c@),
                None => None,
            },
        ),
{
    if chars_contain(source, monitor) || !chars_contain(source, usb) {
        return false;
    }
    match only {
        Some(wanted) => {
            if !chars_contain(source, wanted) {
                return false;
            }
        },
        None => {},
    }
    match except {
        Some(unwanted) => {
            if chars_contain(source, unwanted) {
                return false;
            }
        },
        None => {},
    }
    true
}

/// Picks the capture devices from the listing of the sound server: of each
/// line with at least two fields the second field, if it names a USB device
/// that is no monitor and passes the two filters.
pub fn get_sources(
    listing: &str,
    filter_sources: Option<&String>,
    filter_not_sources: Option<&String>,
) -> (out: Vec<String>)
    ensures
        texts(out@) == listed_sources(
            listing@,
            text_of(filter_sources),
            text_of(filter_not_sources),
        ),
{
    let text = chars_of(listing);
    let monitor = chars_of("monitor");
    let usb = chars_of("usb");
    let only = chars_of_filter(filter_sources);
    let except = chars_of_filter(filter_not_sources);
    let lines = split_ranges(&text, 0, text.len(), '\n');
    let ghost all_lines = split(listing@, '\n');
    proof {
        assert(text@.subrange(0, text@.len() as int) =~= text@);
    }
    let mut out: Vec<String> = Vec::new();
    let mut l: usize = 0;
    while l < lines.len()
        invariant
            l <= lines.len(),
            text@ == listing@,
            monitor@ == "monitor"@,
            usb@ == "usb"@,
            match only {
                Some(c) => text_of(filter_sources) == Some(c@),
                None => text_of(filter_sources) == None::<Seq<char>>,
            },
            match except {
                Some(c) => text_of(filter_not_sources) == Some(c@),
                None => text_of(filter_not_sources) == None::<Seq<char>>,
            },
            pieces(text@, lines@) == all_lines,
            forall|i: int|
                0 <= i < lines.len() ==> 0 <= (#[trigger] lines[i]).0 <= lines[i].1 <= text.len(),
            texts(out@) == sources_of(
                all_lines.take(l as int),
                text_of(filter_sources),
                text_of(filter_not_sources),
            ),
        decreases lines.len() - l,
    {
        let (line_start, line_end) = lines[l];
        let fields = split_ranges(&text, line_start, line_end, '\t');
        proof {
            assert(all_lines.take(l + 1).drop_last() =~= all_lines.take(l as int));
            assert(all_lines[l as int] == text@.subrange(line_start as int, line_end as int));
        }
        if fields.len() >= 2 {
            let (from, to) = fields[1];
            let source = copy_range(&text, from, to);
            proof {
                assert(pieces(text@, fields@)[1] == source@);
            }
            if accepts(&source, &monitor, &usb, &only, &except) {
                let name = listing.substring_char(from, to).to_owned();
                proof {
                    lemma_texts_push(out@, name);
                }
                out.push(name);
            }
        }
        l += 1;
    }
    proof {
        assert(all_lines.take(l as int) =~= all_lines);
    }
    out
}

} // verus!
