//! The fields that the header's `#define` triples describe:
//! `SDMA_PKT_<PACKET>_<WORD>_<field>_offset`, `_mask` and `_shift`.
use vstd::prelude::*;
use vstd::string::StringSliceAdditionalSpecFns;

use crate::text::{
    bytes_eq, copy_all, copy_range, join, join_exec, lines, split_byte, split_byte_exec,
    starts_with, starts_with_exec, strip_prefix, strip_suffix, ends_with, trim, trim_exec,
    trim_start_byte, trim_start_byte_exec, views, ws_prefix, ws_prefix_at, is_digit, utf8_width,
    utf8_width_exec, utf8_code, utf8_code_exec, char_lowercase, is_lowercase_char, char_from_u32,
};

verus! {

// ── numbers ──────────────────────────────────────────────────────────────────

/// The value of the digit `b` in base `radix`, or -1 where `b` is no such
/// digit (`0`–`9`, then `a`–`z` or `A`–`Z` for ten and up).
pub open spec fn digit_value(b: u8, radix: nat) -> int {
    let v: int = if 0x30 <= b <= 0x39 {
        b - 0x30
    } else if 0x61 <= b <= 0x7a {
        b - 0x61 + 10
    } else if 0x41 <= b <= 0x5a {
        b - 0x41 + 10
    } else {
        -1
    };
    if 0 <= v < radix {
        v
    } else {
        -1
    }
}

pub open spec fn all_digits(s: Seq<u8>, radix: nat) -> bool {
    forall|i: int| 0 <= i < s.len() ==> digit_value(#[trigger] s[i], radix) >= 0
}

/// The number that the digits `s` write in base `radix`.
pub open spec fn digits_value(s: Seq<u8>, radix: nat) -> nat
    decreases s.len(),
{
    if s.len() == 0 {
        0
    } else {
        (digits_value(s.drop_last(), radix) * radix + digit_value(s.last(), radix)) as nat
    }
}

/// What `u32::from_str_radix` gives for `s`: an optional `+`, then one digit
/// or more, and a value that fits.
pub open spec fn u32_from_digits(s: Seq<u8>, radix: nat) -> Option<u32> {
    let d = if s.len() > 0 && s[0] == 0x2bu8 {
        s.drop_first()
    } else {
        s
    };
    if d.len() == 0 || !all_digits(d, radix) || digits_value(d, radix) > u32::MAX {
        None
    } else {
        Some(digits_value(d, radix) as u32)
    }
}

/// A number as the header writes it: hexadecimal after `0x` or `0X`,
/// decimal otherwise, with white space around it.
pub open spec fn hex_or_dec(s: Seq<u8>) -> Option<u32> {
    let t = trim(s);
    if starts_with(t, "0x".spec_bytes()) || starts_with(t, "0X".spec_bytes()) {
        u32_from_digits(t.subrange(2, t.len() as int), 16)
    } else {
        u32_from_digits(t, 10)
    }
}

proof fn lemma_digits_value_grows(s: Seq<u8>, radix: nat, k: int)
    requires
        radix >= 1,
        all_digits(s, radix),
        0 <= k <= s.len(),
    ensures
        digits_value(s.subrange(0, k), radix) <= digits_value(s, radix),
    decreases s.len(),
{
    if k < s.len() {
        let t = s.drop_last();
        assert(all_digits(t, radix)) by {
            assert forall|i: int| 0 <= i < t.len() implies digit_value(#[trigger] t[i], radix) >= 0 by {
                assert(t[i] == s[i]);
            }
        }
        lemma_digits_value_grows(t, radix, k);
        assert(t.subrange(0, k) == s.subrange(0, k));
        let a = digits_value(t, radix);
        assert(a <= a * radix) by (nonlinear_arith)
            requires
                radix >= 1,
        ;
        assert(digit_value(s.last(), radix) >= 0);
    } else {
        assert(s.subrange(0, k) == s);
    }
}

fn digit_value_exec(b: u8, radix: u32) -> (r: i32)
    requires
        radix <= 36,
    ensures
        r == digit_value(b, radix as nat),
{
    let v: i32 = if 0x30 <= b && b <= 0x39 {
        (b - 0x30) as i32
    } else if 0x61 <= b && b <= 0x7a {
        (b - 0x61 + 10) as i32
    } else if 0x41 <= b && b <= 0x5a {
        (b - 0x41 + 10) as i32
    } else {
        -1
    };
    if 0 <= v && (v as u32) < radix {
        v
    } else {
        -1
    }
}

/// `u32::from_str_radix` on bytes.
pub fn parse_u32_radix(s: &[u8], radix: u32) -> (r: Option<u32>)
    requires
        2 <= radix <= 36,
    ensures
        r == u32_from_digits(s@, radix as nat),
{
    let start: usize = if s.len() > 0 && s[0] == 0x2b {
        1
    } else {
        0
    };
    let ghost d = if s@.len() > 0 && s@[0] == 0x2bu8 {
        s@.drop_first()
    } else {
        s@
    };
    assert(d == s@.subrange(start as int, s@.len() as int));
    if start == s.len() {
        return None;
    }
    let mut v: u64 = 0;
    let mut i: usize = start;
    while i < s.len()
        invariant
            start <= i <= s@.len(),
            2 <= radix <= 36,
            d == s@.subrange(start as int, s@.len() as int),
            d == (if s@.len() > 0 && s@[0] == 0x2bu8 {
                s@.drop_first()
            } else {
                s@
            }),
            d.len() > 0,
            v == digits_value(s@.subrange(start as int, i as int), radix as nat),
            v <= u32::MAX,
            all_digits(s@.subrange(start as int, i as int), radix as nat),
        decreases s@.len() - i,
    {
        let dv = digit_value_exec(s[i], radix);
        let ghost pre = s@.subrange(start as int, i as int);
        let ghost pre1 = s@.subrange(start as int, i + 1);
        assert(pre1.drop_last() == pre);
        assert(pre1.last() == s@[i as int]);
        if dv < 0 {
            assert(d[i - start] == s@[i as int]);
            assert(!all_digits(d, radix as nat));
            return None;
        }
        assert(v * (radix as u64) <= 0xffff_ffffu64 * 36) by (nonlinear_arith)
            requires
                v <= 0xffff_ffffu64,
                radix <= 36,
        ;
        let nv: u64 = v * (radix as u64) + (dv as u64);
        assert(all_digits(pre1, radix as nat)) by {
            assert forall|k: int| 0 <= k < pre1.len() implies digit_value(#[trigger] pre1[k], radix as nat)
                >= 0 by {
                if k < pre.len() {
                    assert(pre1[k] == pre[k]);
                }
            }
        }
        if nv > 0xffff_ffff {
            proof {
                if all_digits(d, radix as nat) {
                    lemma_digits_value_grows(d, radix as nat, i + 1 - start);
                    assert(d.subrange(0, i + 1 - start) == pre1);
                }
            }
            return None;
        }
        v = nv;
        i += 1;
    }
    assert(s@.subrange(start as int, i as int) == d);
    Some(v as u32)
}

/// A number as the header writes it: hexadecimal after `0x` or `0X`,
/// decimal otherwise.
pub fn parse_u32_hex_or_dec(s: &[u8]) -> (r: Option<u32>)
    ensures
        r == hex_or_dec(s@),
{
    let t = trim_exec(s);
    if starts_with_exec(t.as_slice(), "0x".as_bytes()) || starts_with_exec(t.as_slice(), "0X".as_bytes()) {
        proof {
            reveal_strlit("0x");
            reveal_strlit("0X");
            broadcast use vstd::string::is_ascii_spec_bytes;
            assert(vstd::string::is_ascii("0x"));
            assert(vstd::string::is_ascii("0X"));
        }
        let n = t.len();
        let h = copy_range(t.as_slice(), 2, n);
        parse_u32_radix(h.as_slice(), 16)
    } else {
        parse_u32_radix(t.as_slice(), 10)
    }
}

// ── #define lines ────────────────────────────────────────────────────────────

/// The first position at or after `i` where a white-space character of `s`
/// begins, or -1.
pub open spec fn ws_index_from(s: Seq<u8>, i: nat) -> int
    decreases s.len() - i,
{
    if i >= s.len() {
        -1
    } else if ws_prefix(s.subrange(i as int, s.len() as int)) > 0 {
        i as int
    } else {
        ws_index_from(s, i + 1)
    }
}

/// The name and the value text of a `#define NAME VALUE` line.
pub open spec fn define_of(line: Seq<u8>) -> Option<(Seq<u8>, Seq<u8>)> {
    let t = trim(line);
    let d = "#define ".spec_bytes();
    if !starts_with(t, d) {
        None
    } else {
        let rest = t.subrange(d.len() as int, t.len() as int);
        let i = ws_index_from(rest, 0);
        if i < 0 {
            None
        } else {
            let w = ws_prefix(rest.subrange(i, rest.len() as int));
            Some((trim(rest.subrange(0, i)), trim(rest.subrange(i + w, rest.len() as int))))
        }
    }
}

/// Which part of a field a `#define` name gives (0 the dword offset, 1 the
/// mask, 2 the shift), and the name of the field.
pub open spec fn define_kind(name: Seq<u8>) -> Option<(u8, Seq<u8>)> {
    let o = "_offset".spec_bytes();
    let m = "_mask".spec_bytes();
    let s = "_shift".spec_bytes();
    if ends_with(name, o) {
        Some((0u8, name.subrange(0, name.len() - o.len())))
    } else if ends_with(name, m) {
        Some((1u8, name.subrange(0, name.len() - m.len())))
    } else if ends_with(name, s) {
        Some((2u8, name.subrange(0, name.len() - s.len())))
    } else {
        None
    }
}

/// What the header says of one field so far: its name, then its dword
/// offset, mask and shift where a `#define` gave them (a value that does
/// not parse counts as none).
pub type TripleSpec = (Seq<u8>, Option<u32>, Option<u32>, Option<u32>);

pub open spec fn with_part(t: TripleSpec, kind: u8, v: Option<u32>) -> TripleSpec {
    if kind == 0 {
        (t.0, v, t.2, t.3)
    } else if kind == 1 {
        (t.0, t.1, v, t.3)
    } else {
        (t.0, t.1, t.2, v)
    }
}

/// The first entry at or after `i` that is about the field `base`, or -1.
pub open spec fn index_of_base(tab: Seq<TripleSpec>, base: Seq<u8>, i: nat) -> int
    decreases tab.len() - i,
{
    if i >= tab.len() {
        -1
    } else if tab[i as int].0 == base {
        i as int
    } else {
        index_of_base(tab, base, i + 1)
    }
}

/// The table after a `#define` that gives part `kind` of field `base`.
pub open spec fn record(tab: Seq<TripleSpec>, base: Seq<u8>, kind: u8, v: Option<u32>) -> Seq<
    TripleSpec,
> {
    let i = index_of_base(tab, base, 0);
    if i < 0 {
        tab.push(with_part((base, None, None, None), kind, v))
    } else {
        tab.update(i, with_part(tab[i], kind, v))
    }
}

/// The fields that the `#define` lines speak of, in the order of their
/// first `#define`, with what the last `#define` of each part gave.
pub open spec fn define_table(ls: Seq<Seq<u8>>) -> Seq<TripleSpec>
    decreases ls.len(),
{
    if ls.len() == 0 {
        Seq::empty()
    } else {
        let tab = define_table(ls.drop_last());
        match define_of(ls.last()) {
            Some((name, value)) => match define_kind(name) {
                Some((kind, base)) => record(tab, base, kind, hex_or_dec(value)),
                None => tab,
            },
            None => tab,
        }
    }
}

// ── field names ──────────────────────────────────────────────────────────────

/// Whether the packet key `n` names the packet that the text `r` (after
/// `SDMA_PKT_` or `SDMA_AQL_PKT_`) begins with: `r` is `n` (without its
/// `AQL_`) followed by the end or by `_`.
pub open spec fn is_candidate(n: Seq<u8>, r: Seq<u8>, aql: bool) -> bool {
    let a = "AQL_".spec_bytes();
    if aql {
        starts_with(n, a) && {
            let nb = n.subrange(a.len() as int, n.len() as int);
            starts_with(r, nb) && (r.len() == nb.len() || r[nb.len() as int] == 0x5fu8)
        }
    } else {
        !starts_with(n, a) && starts_with(r, n) && (r.len() == n.len() || r[n.len() as int] == 0x5fu8)
    }
}

/// The length of the part of `r` that the packet key `n` matches.
pub open spec fn matched_len(n: Seq<u8>, aql: bool) -> int {
    if aql {
        n.len() - "AQL_".spec_bytes().len()
    } else {
        n.len() as int
    }
}

/// The packet that `r` belongs to: the longest key that matches, the first
/// of them in `names` where several are as long; -1 where none matches.
pub open spec fn best_candidate(names: Seq<Seq<u8>>, r: Seq<u8>, aql: bool) -> int
    decreases names.len(),
{
    if names.len() == 0 {
        -1
    } else {
        let b = best_candidate(names.drop_last(), r, aql);
        let i = names.len() - 1;
        if is_candidate(names[i], r, aql) && (b < 0 || names[i].len() > names[b].len()) {
            i
        } else {
            b
        }
    }
}

/// The chosen key matches, no matching key is longer, and no matching key
/// as long comes earlier; where nothing is chosen, nothing matches.
pub proof fn lemma_best_candidate(names: Seq<Seq<u8>>, r: Seq<u8>, aql: bool)
    ensures
        ({
            let b = best_candidate(names, r, aql);
            &&& b < names.len()
            &&& b >= 0 ==> is_candidate(names[b], r, aql)
            &&& b >= 0 ==> forall|j: int|
                0 <= j < names.len() && is_candidate(#[trigger] names[j], r, aql) ==> names[j].len()
                    < names[b].len() || (names[j].len() == names[b].len() && b <= j)
            &&& b < 0 ==> forall|j: int| 0 <= j < names.len() ==> !is_candidate(#[trigger] names[j], r, aql)
        }),
    decreases names.len(),
{
    if names.len() > 0 {
        let d = names.drop_last();
        lemma_best_candidate(d, r, aql);
        let bd = best_candidate(d, r, aql);
        let i = names.len() - 1;
        let b = best_candidate(names, r, aql);
        if bd >= 0 {
            assert(d[bd] == names[bd]);
        }
        assert forall|j: int| 0 <= j < names.len() && is_candidate(#[trigger] names[j], r, aql) implies b >= 0
            && (names[j].len() < names[b].len() || (names[j].len() == names[b].len() && b <= j)) by {
            if j < i {
                assert(d[j] == names[j]);
                assert(is_candidate(d[j], r, aql));
            }
        }
    }
}

/// Whether the UTF-8 text `t` from position `i` on holds only characters
/// that are lower case (`char::is_lowercase`) or ASCII digits.
pub open spec fn lowerish_from(t: Seq<u8>, i: int) -> bool
    decreases t.len() - i,
{
    if i < 0 || i >= t.len() {
        true
    } else {
        let w = utf8_width(t[i]);
        let cp = utf8_code(t, i, w);
        &&& i + w <= t.len()
        &&& is_digit(t[i]) || (vstd::utf8::is_scalar(cp) && char_lowercase(cp as char))
        &&& lowerish_from(t, i + w)
    }
}

/// A token of lower-case characters and digits only (an empty token counts).
pub open spec fn lowerish(t: Seq<u8>) -> bool {
    lowerish_from(t, 0)
}

/// A token of digits only (an empty token counts).
pub open spec fn numeric(t: Seq<u8>) -> bool {
    forall|i: int| 0 <= i < t.len() ==> is_digit(#[trigger] t[i])
}

/// Where the field name starts: the trailing run of lower-case tokens,
/// always leaving the first token to the word name.
pub open spec fn field_start_from(toks: Seq<Seq<u8>>, idx: int) -> int
    decreases idx,
{
    if 1 < idx <= toks.len() && lowerish(toks[idx - 1]) {
        field_start_from(toks, idx - 1)
    } else {
        idx
    }
}

/// The end of the run of numeric tokens from `i` on.
pub open spec fn digit_run_from(toks: Seq<Seq<u8>>, i: int) -> int
    decreases toks.len() - i,
{
    if 0 <= i < toks.len() && numeric(toks[i]) {
        digit_run_from(toks, i + 1)
    } else {
        i
    }
}

/// Names of fields that only say which packet it is.
pub open spec fn is_meta(f: Seq<u8>) -> bool {
    f == "op".spec_bytes() || f == "sub_op".spec_bytes() || f == "subop".spec_bytes()
}

/// A field of a packet, as one `#define` triple gives it.
pub struct RawFieldSpec {
    pub pkt_name: Seq<u8>,
    pub word_name: Seq<u8>,
    pub field_name: Seq<u8>,
    pub dw: u32,
    pub mask: u32,
    pub shift: u32,
}

/// The field that the tokens after the packet name describe: the word name
/// (`DW_3`, `HEADER`, `DATA0`) and the field name (`count`, `src_addr_31_0`);
/// numeric tokens at the start of the field name belong to the word name.
pub open spec fn field_of_rest(key: Seq<u8>, rest: Seq<u8>, o: u32, m: u32, sh: u32) -> Option<
    RawFieldSpec,
> {
    let toks = split_byte(rest, 0x5fu8);
    let fs = field_start_from(toks, toks.len() as int);
    if fs == toks.len() {
        None
    } else {
        let ws = digit_run_from(toks, fs);
        if ws == toks.len() {
            None
        } else {
            let field = join(toks.subrange(ws, toks.len() as int), 0x5fu8);
            if is_meta(field) {
                None
            } else {
                Some(
                    RawFieldSpec {
                        pkt_name: key,
                        word_name: join(toks.subrange(0, ws), 0x5fu8),
                        field_name: field,
                        dw: o,
                        mask: m,
                        shift: sh,
                    },
                )
            }
        }
    }
}

/// The field that the `#define` triple of `base` describes, if `base`
/// belongs to one of the packets `names`.
pub open spec fn field_of(base: Seq<u8>, o: u32, m: u32, sh: u32, names: Seq<Seq<u8>>) -> Option<
    RawFieldSpec,
> {
    let sdma = "SDMA_".spec_bytes();
    let aql_pkt = "AQL_PKT_".spec_bytes();
    let pkt = "PKT_".spec_bytes();
    if !starts_with(base, sdma) {
        None
    } else {
        let body = base.subrange(sdma.len() as int, base.len() as int);
        let aql = starts_with(body, aql_pkt);
        if !aql && !starts_with(body, pkt) {
            None
        } else {
            let r = if aql {
                body.subrange(aql_pkt.len() as int, body.len() as int)
            } else {
                body.subrange(pkt.len() as int, body.len() as int)
            };
            let b = best_candidate(names, r, aql);
            if b < 0 {
                None
            } else {
                let after = r.subrange(matched_len(names[b], aql), r.len() as int);
                let rest = trim_start_byte(after, 0x5fu8);
                if rest.len() == 0 {
                    None
                } else {
                    field_of_rest(names[b], rest, o, m, sh)
                }
            }
        }
    }
}

/// The fields of the table whose three parts are all known.
pub open spec fn fields_of_table(tab: Seq<TripleSpec>, names: Seq<Seq<u8>>) -> Seq<RawFieldSpec>
    decreases tab.len(),
{
    if tab.len() == 0 {
        Seq::empty()
    } else {
        let prev = fields_of_table(tab.drop_last(), names);
        let t = tab.last();
        match (t.1, t.2, t.3) {
            (Some(o), Some(m), Some(sh)) => match field_of(t.0, o, m, sh, names) {
                Some(f) => prev.push(f),
                None => prev,
            },
            _ => prev,
        }
    }
}

/// The fields of the packets `names` that the header `src` describes.
pub open spec fn raw_fields(src: Seq<u8>, names: Seq<Seq<u8>>) -> Seq<RawFieldSpec> {
    fields_of_table(define_table(lines(src)), names)
}

/// Whether the table entry `t` has all three parts and is the entry that
/// the field `f` was read from.
pub open spec fn entry_gives(t: TripleSpec, names: Seq<Seq<u8>>, f: RawFieldSpec) -> bool {
    &&& t.1 == Some(f.dw)
    &&& t.2 == Some(f.mask)
    &&& t.3 == Some(f.shift)
    &&& field_of(t.0, f.dw, f.mask, f.shift, names) == Some(f)
}

/// Whether some entry of the table gives the field `f`.
pub open spec fn from_complete_entry(tab: Seq<TripleSpec>, names: Seq<Seq<u8>>, f: RawFieldSpec) -> bool {
    exists|j: int| 0 <= j < tab.len() && #[trigger] entry_gives(tab[j], names, f)
}

proof fn lemma_fields_from_complete_entries(tab: Seq<TripleSpec>, names: Seq<Seq<u8>>)
    ensures
        forall|k: int|
            0 <= k < fields_of_table(tab, names).len() ==> #[trigger] from_complete_entry(
                tab,
                names,
                fields_of_table(tab, names)[k],
            ),
    decreases tab.len(),
{
    if tab.len() > 0 {
        let d = tab.drop_last();
        lemma_fields_from_complete_entries(d, names);
        let prev = fields_of_table(d, names);
        let r = fields_of_table(tab, names);
        assert forall|k: int| 0 <= k < r.len() implies #[trigger] from_complete_entry(tab, names, r[k]) by {
            if k < prev.len() {
                assert(r[k] == prev[k]);
                assert(from_complete_entry(d, names, prev[k]));
                let j = choose|j: int| 0 <= j < d.len() && #[trigger] entry_gives(d[j], names, prev[k]);
                assert(tab[j] == d[j]);
                assert(entry_gives(tab[j], names, r[k]));
            } else {
                assert(entry_gives(tab[tab.len() - 1], names, r[k]));
            }
        }
    }
}

/// Every field read from a header comes from a field of which the header
/// defines all three of the dword offset, the mask and the shift, and it is
/// what that field's `#define` name describes.
pub proof fn lemma_fields_have_all_defines(src: Seq<u8>, names: Seq<Seq<u8>>)
    ensures
        forall|k: int|
            0 <= k < raw_fields(src, names).len() ==> #[trigger] from_complete_entry(
                define_table(lines(src)),
                names,
                raw_fields(src, names)[k],
            ),
{
    lemma_fields_from_complete_entries(define_table(lines(src)), names);
}

/// The `op` and `sub_op` (or `subop`) fields only say which packet a
/// header is: no field read from a header is named `op`, `sub_op` or
/// `subop`.
pub proof fn lemma_no_opcode_fields(src: Seq<u8>, names: Seq<Seq<u8>>)
    ensures
        forall|k: int|
            0 <= k < raw_fields(src, names).len() ==> {
                let f = #[trigger] raw_fields(src, names)[k].field_name;
                &&& f != "op".spec_bytes()
                &&& f != "sub_op".spec_bytes()
                &&& f != "subop".spec_bytes()
            },
{
    let tab = define_table(lines(src));
    lemma_fields_have_all_defines(src, names);
    assert forall|k: int| 0 <= k < raw_fields(src, names).len() implies !is_meta(
        #[trigger] raw_fields(src, names)[k].field_name,
    ) by {
        let f = raw_fields(src, names)[k];
        assert(from_complete_entry(tab, names, f));
        let j = choose|j: int| 0 <= j < tab.len() && #[trigger] entry_gives(tab[j], names, f);
        assert(field_of(tab[j].0, f.dw, f.mask, f.shift, names) == Some(f));
    }
}

// ── the reader ───────────────────────────────────────────────────────────────

fn define_of_exec(line: &[u8]) -> (r: Option<(Vec<u8>, Vec<u8>)>)
    ensures
        r is Some <==> define_of(line@) is Some,
        r matches Some((name, value)) ==> define_of(line@) == Some((name@, value@)),
{
    let t = trim_exec(line);
    let d = "#define ".as_bytes();
    if !starts_with_exec(t.as_slice(), d) {
        return None;
    }
    let n = t.len();
    let rest = copy_range(t.as_slice(), d.len(), n);
    let mut i: usize = 0;
    while i < rest.len() && ws_prefix_at(rest.as_slice(), i) == 0
        invariant
            i <= rest@.len(),
            ws_index_from(rest@, 0) == ws_index_from(rest@, i as nat),
        decreases rest@.len() - i,
    {
        i += 1;
    }
    if i == rest.len() {
        return None;
    }
    let m = rest.len();
    let w = ws_prefix_at(rest.as_slice(), i);
    let name = trim_exec(copy_range(rest.as_slice(), 0, i).as_slice());
    let value = trim_exec(copy_range(rest.as_slice(), i + w, m).as_slice());
    Some((name, value))
}

fn define_kind_exec(name: &[u8]) -> (r: Option<(u8, Vec<u8>)>)
    ensures
        r is Some <==> define_kind(name@) is Some,
        r matches Some((kind, base)) ==> define_kind(name@) == Some((kind, base@)),
{
    if let Some(b) = strip_suffix(name, "_offset".as_bytes()) {
        Some((0, b))
    } else if let Some(b) = strip_suffix(name, "_mask".as_bytes()) {
        Some((1, b))
    } else if let Some(b) = strip_suffix(name, "_shift".as_bytes()) {
        Some((2, b))
    } else {
        None
    }
}

/// What the header says of one field so far.
struct DefineTriple {
    base: Vec<u8>,
    offset: Option<u32>,
    mask: Option<u32>,
    shift: Option<u32>,
}

impl View for DefineTriple {
    type V = TripleSpec;

    closed spec fn view(&self) -> TripleSpec {
        (self.base@, self.offset, self.mask, self.shift)
    }
}

spec fn triple_views(s: Seq<DefineTriple>) -> Seq<TripleSpec> {
    s.map_values(|t: DefineTriple| t@)
}

fn with_part_exec(base: Vec<u8>, t: (Option<u32>, Option<u32>, Option<u32>), kind: u8, v: Option<u32>) -> (r:
    DefineTriple)
    ensures
        r@ == with_part((base@, t.0, t.1, t.2), kind, v),
{
    if kind == 0 {
        DefineTriple { base, offset: v, mask: t.1, shift: t.2 }
    } else if kind == 1 {
        DefineTriple { base, offset: t.0, mask: v, shift: t.2 }
    } else {
        DefineTriple { base, offset: t.0, mask: t.1, shift: v }
    }
}

fn record_exec(tab: &mut Vec<DefineTriple>, base: Vec<u8>, kind: u8, v: Option<u32>)
    ensures
        triple_views(final(tab)@) == record(triple_views(old(tab)@), base@, kind, v),
{
    let ghost old_views = triple_views(tab@);
    let mut i: usize = 0;
    while i < tab.len()
        invariant
            i <= tab@.len(),
            tab@ == old(tab)@,
            old_views == triple_views(tab@),
            index_of_base(old_views, base@, 0) == index_of_base(old_views, base@, i as nat),
        decreases tab@.len() - i,
    {
        if bytes_eq(tab[i].base.as_slice(), base.as_slice()) {
            assert(old_views[i as int] == tab@[i as int]@);
            let parts = (tab[i].offset, tab[i].mask, tab[i].shift);
            let b = copy_all(tab[i].base.as_slice());
            let nt = with_part_exec(b, parts, kind, v);
            tab[i] = nt;
            assert(triple_views(tab@) =~= old_views.update(i as int, with_part(old_views[i as int], kind, v)));
            return;
        }
        assert(old_views[i as int] == tab@[i as int]@);
        i += 1;
    }
    let nt = with_part_exec(base, (None, None, None), kind, v);
    tab.push(nt);
    assert(triple_views(tab@) =~= old_views.push(with_part((base@, None, None, None), kind, v)));
}

fn is_candidate_exec(n: &[u8], r: &[u8], aql: bool) -> (b: bool)
    ensures
        b == is_candidate(n@, r@, aql),
{
    let a = "AQL_".as_bytes();
    if aql {
        if !starts_with_exec(n, a) {
            return false;
        }
        let nb = copy_range(n, a.len(), n.len());
        starts_with_exec(r, nb.as_slice()) && (r.len() == nb.len() || r[nb.len()] == 0x5f)
    } else {
        !starts_with_exec(n, a) && starts_with_exec(r, n) && (r.len() == n.len() || r[n.len()] == 0x5f)
    }
}

fn best_candidate_exec(names: &[Vec<u8>], r: &[u8], aql: bool) -> (b: Option<usize>)
    ensures
        b is Some <==> best_candidate(views(names@), r@, aql) >= 0,
        b is Some ==> b->0 == best_candidate(views(names@), r@, aql) && b->0 < names@.len(),
{
    let ghost all = views(names@);
    let mut best: Option<usize> = None;
    let mut i: usize = 0;
    while i < names.len()
        invariant
            i <= names@.len(),
            all == views(names@),
            best is Some <==> best_candidate(all.subrange(0, i as int), r@, aql) >= 0,
            best is Some ==> best->0 == best_candidate(all.subrange(0, i as int), r@, aql) && best->0 < i,
        decreases names@.len() - i,
    {
        let ghost pre = all.subrange(0, i as int);
        let ghost pre1 = all.subrange(0, i + 1);
        assert(pre1.drop_last() == pre);
        assert(pre1[i as int] == names@[i as int]@);
        if is_candidate_exec(names[i].as_slice(), r, aql) {
            match best {
                None => {
                    best = Some(i);
                },
                Some(b) => {
                    assert(pre1[b as int] == names@[b as int]@);
                    if names[i].len() > names[b].len() {
                        best = Some(i);
                    }
                },
            }
        } else {
            proof {
                if best is Some {
                    assert(pre1[best->0 as int] == pre[best->0 as int]);
                }
            }
        }
        i += 1;
    }
    assert(all.subrange(0, names@.len() as int) == all);
    best
}

fn lowerish_exec(t: &[u8]) -> (r: bool)
    ensures
        r == lowerish(t@),
{
    let mut i: usize = 0;
    while i < t.len()
        invariant
            i <= t@.len(),
            lowerish(t@) == lowerish_from(t@, i as int),
        decreases t@.len() - i,
    {
        let b = t[i];
        let w = utf8_width_exec(b);
        if w > t.len() - i {
            return false;
        }
        if !(0x30 <= b && b <= 0x39) {
            let cp = utf8_code_exec(t, i, w);
            match char_from_u32(cp) {
                Some(c) => {
                    proof {
                        vstd::utf8::char_u32_cast(c, cp);
                    }
                    if !is_lowercase_char(c) {
                        return false;
                    }
                },
                None => {
                    return false;
                },
            }
        }
        i += w;
    }
    true
}

fn numeric_exec(t: &[u8]) -> (r: bool)
    ensures
        r == numeric(t@),
{
    let mut i: usize = 0;
    while i < t.len()
        invariant
            i <= t@.len(),
            forall|j: int| 0 <= j < i ==> is_digit(#[trigger] t@[j]),
        decreases t@.len() - i,
    {
        if !(0x30 <= t[i] && t[i] <= 0x39) {
            return false;
        }
        i += 1;
    }
    true
}

fn is_meta_exec(f: &[u8]) -> (r: bool)
    ensures
        r == is_meta(f@),
{
    bytes_eq(f, "op".as_bytes()) || bytes_eq(f, "sub_op".as_bytes()) || bytes_eq(f, "subop".as_bytes())
}

/// A field of a packet, as one `#define` triple gives it.
pub struct RawField {
    pub pkt_name: Vec<u8>,
    pub word_name: Vec<u8>,
    pub field_name: Vec<u8>,
    pub dw: u32,
    pub mask: u32,
    pub shift: u32,
}

impl View for RawField {
    type V = RawFieldSpec;

    open spec fn view(&self) -> RawFieldSpec {
        RawFieldSpec {
            pkt_name: self.pkt_name@,
            word_name: self.word_name@,
            field_name: self.field_name@,
            dw: self.dw,
            mask: self.mask,
            shift: self.shift,
        }
    }
}

pub open spec fn raw_views(s: Seq<RawField>) -> Seq<RawFieldSpec> {
    s.map_values(|f: RawField| f@)
}

fn field_of_rest_exec(key: &[u8], rest: &[u8], o: u32, m: u32, sh: u32) -> (r: Option<RawField>)
    ensures
        r is Some <==> field_of_rest(key@, rest@, o, m, sh) is Some,
        r is Some ==> r->0@ == field_of_rest(key@, rest@, o, m, sh)->0,
{
    let toks = split_byte_exec(rest, 0x5f);
    let ghost tv = views(toks@);
    let n = toks.len();
    let mut fs: usize = n;
    while fs > 1 && lowerish_exec(toks[fs - 1].as_slice())
        invariant
            fs <= n == toks@.len(),
            tv == views(toks@),
            field_start_from(tv, n as int) == field_start_from(tv, fs as int),
        decreases fs,
    {
        assert(tv[fs - 1] == toks@[fs - 1]@);
        fs -= 1;
    }
    proof {
        if fs > 1 {
            assert(tv[fs - 1] == toks@[fs - 1]@);
        }
    }
    if fs == n {
        return None;
    }
    let mut ws: usize = fs;
    while ws < n && numeric_exec(toks[ws].as_slice())
        invariant
            fs <= ws <= n == toks@.len(),
            tv == views(toks@),
            digit_run_from(tv, fs as int) == digit_run_from(tv, ws as int),
        decreases n - ws,
    {
        assert(tv[ws as int] == toks@[ws as int]@);
        ws += 1;
    }
    proof {
        if ws < n {
            assert(tv[ws as int] == toks@[ws as int]@);
        }
    }
    if ws == n {
        return None;
    }
    let field = join_exec(&toks, ws, n, 0x5f);
    if is_meta_exec(field.as_slice()) {
        return None;
    }
    let word = join_exec(&toks, 0, ws, 0x5f);
    Some(RawField { pkt_name: copy_all(key), word_name: word, field_name: field, dw: o, mask: m, shift: sh })
}

fn field_of_exec(base: &[u8], o: u32, m: u32, sh: u32, names: &[Vec<u8>]) -> (r: Option<RawField>)
    ensures
        r is Some <==> field_of(base@, o, m, sh, views(names@)) is Some,
        r is Some ==> r->0@ == field_of(base@, o, m, sh, views(names@))->0,
{
    let body = match strip_prefix(base, "SDMA_".as_bytes()) {
        Some(b) => b,
        None => return None,
    };
    let aql_pkt = "AQL_PKT_".as_bytes();
    let aql = starts_with_exec(body.as_slice(), aql_pkt);
    if !aql && !starts_with_exec(body.as_slice(), "PKT_".as_bytes()) {
        return None;
    }
    let bl = body.len();
    let r = if aql {
        copy_range(body.as_slice(), aql_pkt.len(), bl)
    } else {
        copy_range(body.as_slice(), "PKT_".as_bytes().len(), bl)
    };
    let b = match best_candidate_exec(names, r.as_slice(), aql) {
        Some(b) => b,
        None => return None,
    };
    let n = names[b].as_slice();
    let ghost nv = views(names@)[b as int];
    assert(nv == n@);
    assert(is_candidate(nv, r@, aql)) by {
        lemma_best_candidate(views(names@), r@, aql);
    }
    let ml = if aql {
        n.len() - "AQL_".as_bytes().len()
    } else {
        n.len()
    };
    let rl = r.len();
    let after = copy_range(r.as_slice(), ml, rl);
    let rest = trim_start_byte_exec(after.as_slice(), 0x5f);
    if rest.len() == 0 {
        return None;
    }
    field_of_rest_exec(n, rest.as_slice(), o, m, sh)
}

/// The fields of the packets `pkt_names` that the `#define` triples of the
/// header `src` describe, in the order of each field's first `#define`.
/// Triples with a part missing or unparsable, names of no known packet, and
/// the `op` and `sub_op` fields give nothing.
pub fn parse_raw_fields(src: &[u8], pkt_names: &[Vec<u8>]) -> (r: Vec<RawField>)
    ensures
        raw_views(r@) == raw_fields(src@, views(pkt_names@)),
        forall|k: int|
            0 <= k < r@.len() ==> {
                let f = #[trigger] r@[k].field_name@;
                &&& f != "op".spec_bytes()
                &&& f != "sub_op".spec_bytes()
                &&& f != "subop".spec_bytes()
            },
{
    let ls = split_byte_exec(src, 0x0a);
    let ghost lv = views(ls@);
    let mut tab: Vec<DefineTriple> = Vec::new();
    let mut i: usize = 0;
    while i < ls.len()
        invariant
            i <= ls@.len(),
            lv == views(ls@),
            lv == lines(src@),
            triple_views(tab@) == define_table(lv.subrange(0, i as int)),
        decreases ls@.len() - i,
    {
        let ghost pre = lv.subrange(0, i as int);
        let ghost pre1 = lv.subrange(0, i + 1);
        assert(pre1.drop_last() == pre);
        assert(pre1.last() == ls@[i as int]@);
        if let Some((name, value)) = define_of_exec(ls[i].as_slice()) {
            if let Some((kind, base)) = define_kind_exec(name.as_slice()) {
                let v = parse_u32_hex_or_dec(value.as_slice());
                record_exec(&mut tab, base, kind, v);
            }
        }
        i += 1;
    }
    assert(lv.subrange(0, ls@.len() as int) == lv);
    let ghost tv = triple_views(tab@);
    let ghost nv = views(pkt_names@);
    let mut fields: Vec<RawField> = Vec::new();
    let mut j: usize = 0;
    while j < tab.len()
        invariant
            j <= tab@.len(),
            tv == triple_views(tab@),
            nv == views(pkt_names@),
            raw_views(fields@) == fields_of_table(tv.subrange(0, j as int), nv),
        decreases tab@.len() - j,
    {
        let ghost pre = tv.subrange(0, j as int);
        let ghost pre1 = tv.subrange(0, j + 1);
        assert(pre1.drop_last() == pre);
        assert(pre1.last() == tab@[j as int]@);
        let t = &tab[j];
        if let (Some(o), Some(m), Some(sh)) = (t.offset, t.mask, t.shift) {
            if let Some(f) = field_of_exec(t.base.as_slice(), o, m, sh, pkt_names) {
                fields.push(f);
                assert(raw_views(fields@) =~= fields_of_table(pre, nv).push(f@));
            }
        }
        j += 1;
    }
    assert(tv.subrange(0, tab@.len() as int) == tv);
    proof {
        lemma_no_opcode_fields(src@, views(pkt_names@));
        assert(raw_views(fields@) == raw_fields(src@, views(pkt_names@)));
        assert forall|k: int| 0 <= k < fields@.len() implies {
            let f = #[trigger] fields@[k].field_name@;
            &&& f != "op".spec_bytes()
            &&& f != "sub_op".spec_bytes()
            &&& f != "subop".spec_bytes()
        } by {
            assert(raw_views(fields@)[k] == fields@[k]@);
            assert(raw_fields(src@, views(pkt_names@))[k].field_name == fields@[k].field_name@);
        }
    }
    fields
}

} // verus!
