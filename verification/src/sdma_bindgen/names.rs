//! The packets that the header declares, in the order of their section
//! comments (`/* ** Definitions for SDMA_PKT_COPY_LINEAR packet */`).
use vstd::prelude::*;
use vstd::string::StringSliceAdditionalSpecFns;

use crate::text::{
    contains_bytes, find, find_exec, first_word, first_word_exec, lines, push_all, split_byte_exec,
    starts_with, strip_prefix, trim, trim_end_byte, trim_end_byte_exec, trim_exec, views,
};

verus! {

pub open spec fn section_marker() -> Seq<u8> {
    "Definitions for SDMA_".spec_bytes()
}

/// The key of the packet whose section a header line opens: `COPY_LINEAR`
/// for `SDMA_PKT_COPY_LINEAR`, `AQL_BARRIER_OR` for `SDMA_AQL_PKT_BARRIER_OR`.
pub open spec fn declared_key(line: Seq<u8>) -> Option<Seq<u8>> {
    let t = trim(line);
    let pos = find(t, section_marker());
    if pos < 0 {
        None
    } else {
        let rest = t.subrange(pos + section_marker().len(), t.len() as int);
        let name = trim_end_byte(trim_end_byte(first_word(rest), 0x2au8), 0x2fu8);
        if starts_with(name, "PKT_".spec_bytes()) {
            Some(name.subrange("PKT_".spec_bytes().len() as int, name.len() as int))
        } else if starts_with(name, "AQL_PKT_".spec_bytes()) {
            Some(
                "AQL_".spec_bytes() + name.subrange(
                    "AQL_PKT_".spec_bytes().len() as int,
                    name.len() as int,
                ),
            )
        } else {
            None
        }
    }
}

/// The keys that the lines declare, each once, in the order of first
/// declaration.
pub open spec fn keys_of_lines(ls: Seq<Seq<u8>>) -> Seq<Seq<u8>>
    decreases ls.len(),
{
    if ls.len() == 0 {
        Seq::empty()
    } else {
        let keys = keys_of_lines(ls.drop_last());
        match declared_key(ls.last()) {
            Some(k) => if k.len() > 0 && !keys.contains(k) {
                keys.push(k)
            } else {
                keys
            },
            None => keys,
        }
    }
}

/// The packet keys that the header `src` declares.
pub open spec fn packet_names(src: Seq<u8>) -> Seq<Seq<u8>> {
    keys_of_lines(lines(src))
}

fn declared_key_exec(line: &[u8]) -> (r: Option<Vec<u8>>)
    ensures
        r is Some <==> declared_key(line@) is Some,
        r is Some ==> r->0@ == declared_key(line@)->0,
{
    let t = trim_exec(line);
    let marker = "Definitions for SDMA_".as_bytes();
    let pos = match find_exec(t.as_slice(), marker) {
        Some(p) => p,
        None => return None,
    };
    let n = t.len();
    let rest = crate::text::copy_range(t.as_slice(), pos + marker.len(), n);
    let word = first_word_exec(rest.as_slice());
    let w1 = trim_end_byte_exec(word.as_slice(), 0x2a);
    let name = trim_end_byte_exec(w1.as_slice(), 0x2f);
    if let Some(r) = strip_prefix(name.as_slice(), "PKT_".as_bytes()) {
        Some(r)
    } else if let Some(r) = strip_prefix(name.as_slice(), "AQL_PKT_".as_bytes()) {
        let mut k: Vec<u8> = Vec::new();
        push_all(&mut k, "AQL_".as_bytes());
        push_all(&mut k, r.as_slice());
        Some(k)
    } else {
        None
    }
}

/// The packet keys that the header `src` declares in its section comments,
/// each once, in the order of their first section.
pub fn collect_packet_names(src: &[u8]) -> (r: Vec<Vec<u8>>)
    ensures
        views(r@) == packet_names(src@),
{
    let ls = split_byte_exec(src, 0x0a);
    let mut names: Vec<Vec<u8>> = Vec::new();
    let mut i: usize = 0;
    while i < ls.len()
        invariant
            i <= ls@.len(),
            views(ls@) == lines(src@),
            views(names@) == keys_of_lines(views(ls@).subrange(0, i as int)),
        decreases ls@.len() - i,
    {
        let ghost prev = views(ls@).subrange(0, i as int);
        let ghost next = views(ls@).subrange(0, i + 1);
        assert(next.drop_last() == prev);
        assert(next.last() == ls@[i as int]@);
        match declared_key_exec(ls[i].as_slice()) {
            Some(k) => {
                if k.len() > 0 && !contains_bytes(&names, k.as_slice()) {
                    names.push(k);
                    assert(views(names@) =~= keys_of_lines(prev).push(k@));
                }
            },
            None => {},
        }
        i += 1;
    }
    assert(views(ls@).subrange(0, ls@.len() as int) == views(ls@));
    names
}

/// Each packet key is listed once, and none is empty.
pub proof fn lemma_packet_names_distinct(src: Seq<u8>)
    ensures
        packet_names(src).no_duplicates(),
        forall|i: int| 0 <= i < packet_names(src).len() ==> (#[trigger] packet_names(src)[i]).len() > 0,
{
    lemma_keys_distinct(lines(src));
}

proof fn lemma_keys_distinct(ls: Seq<Seq<u8>>)
    ensures
        keys_of_lines(ls).no_duplicates(),
        forall|i: int| 0 <= i < keys_of_lines(ls).len() ==> (#[trigger] keys_of_lines(ls)[i]).len() > 0,
    decreases ls.len(),
{
    if ls.len() > 0 {
        lemma_keys_distinct(ls.drop_last());
        let keys = keys_of_lines(ls.drop_last());
        match declared_key(ls.last()) {
            Some(k) => {
                if k.len() > 0 && !keys.contains(k) {
                    let r = keys.push(k);
                    assert forall|i: int, j: int| 0 <= i < r.len() && 0 <= j < r.len() && i != j implies r[i]
                        != r[j] by {
                        if i == keys.len() as int {
                            assert(keys[j] == r[j]);
                        } else if j == keys.len() as int {
                            assert(keys[i] == r[i]);
                        }
                    }
                }
            },
            None => {},
        }
    }
}

} // verus!
