use amdgpu_linux::sdma_bindgen::emit::{detect_dyn, detect_joins, fmt_mask, generate, infer_type};
use amdgpu_linux::sdma_bindgen::fields::{parse_raw_fields, parse_u32_hex_or_dec};
use amdgpu_linux::sdma_bindgen::names::collect_packet_names;
use amdgpu_linux::sdma_bindgen::packets::{build_packets, to_pascal};

const HEADER: &str = "\
/*
** Definitions for SDMA_PKT_COPY_LINEAR packet
*/

/*define for HEADER word*/
/*define for op field*/
#define SDMA_PKT_COPY_LINEAR_HEADER_op_offset 0
#define SDMA_PKT_COPY_LINEAR_HEADER_op_mask   0x000000FF
#define SDMA_PKT_COPY_LINEAR_HEADER_op_shift  0
#define SDMA_PKT_COPY_LINEAR_HEADER_OP(x) (((x) & SDMA_PKT_COPY_LINEAR_HEADER_op_mask) << SDMA_PKT_COPY_LINEAR_HEADER_op_shift)

/*define for encrypt field*/
#define SDMA_PKT_COPY_LINEAR_HEADER_encrypt_offset 0
#define SDMA_PKT_COPY_LINEAR_HEADER_encrypt_mask   0x00000001
#define SDMA_PKT_COPY_LINEAR_HEADER_encrypt_shift  16

/*define for COUNT word*/
#define SDMA_PKT_COPY_LINEAR_COUNT_count_offset 1
#define SDMA_PKT_COPY_LINEAR_COUNT_count_mask   0x003FFFFF
#define SDMA_PKT_COPY_LINEAR_COUNT_count_shift  0

/*define for SRC_ADDR_LO word*/
#define SDMA_PKT_COPY_LINEAR_SRC_ADDR_LO_src_addr_31_0_offset 3
#define SDMA_PKT_COPY_LINEAR_SRC_ADDR_LO_src_addr_31_0_mask   0xFFFFFFFF
#define SDMA_PKT_COPY_LINEAR_SRC_ADDR_LO_src_addr_31_0_shift  0

/*define for SRC_ADDR_HI word*/
#define SDMA_PKT_COPY_LINEAR_SRC_ADDR_HI_src_addr_63_32_offset 4
#define SDMA_PKT_COPY_LINEAR_SRC_ADDR_HI_src_addr_63_32_mask   0xFFFFFFFF
#define SDMA_PKT_COPY_LINEAR_SRC_ADDR_HI_src_addr_63_32_shift  0

/*
** Definitions for SDMA_PKT_NOP packet
*/
#define SDMA_PKT_NOP_HEADER_count_offset 0
#define SDMA_PKT_NOP_HEADER_count_mask   0x00003FFF
#define SDMA_PKT_NOP_HEADER_count_shift  16
#define SDMA_PKT_NOP_DATA0_data0_offset 1
#define SDMA_PKT_NOP_DATA0_data0_mask   0xFFFFFFFF
#define SDMA_PKT_NOP_DATA0_data0_shift  0

/*
** Definitions for SDMA_AQL_PKT_BARRIER_OR packet
*/
#define SDMA_AQL_PKT_BARRIER_OR_HEADER_format_offset 0
#define SDMA_AQL_PKT_BARRIER_OR_HEADER_format_mask   0x000000FF
#define SDMA_AQL_PKT_BARRIER_OR_HEADER_format_shift  0
";

const EXPECTED: &str = "\
CopyLinear {
\t@bits
\tdw[0] = {
\t\t& 0x1 << 16 = encrypt: bool;
\t}
\tdw[1] = {
\t\t& 0x3fffff << 0 = count: u32;
\t}
\t@join
\tdw[3], dw[4] = src_addr: u64;
}

Nop<'a> {
\t@bits
\tdw[0] = {
\t\t& 0x3fff << 16 = count: u16;
\t}
\t@dyn
\t// TODO: identify the length field index
\tdw[1..] = data0: &'a [u32],
\tdw[???] = len
}

AqlBarrierOr {
\t@bits
\tdw[0] = {
\t\t& 0xff << 0 = format: u8;
\t}
}

";

fn text(v: &[u8]) -> String {
    String::from_utf8(v.to_vec()).unwrap()
}

#[test]
fn packet_names_come_from_section_comments() {
    let names = collect_packet_names(HEADER.as_bytes());
    let names: Vec<String> = names.iter().map(|n| text(n)).collect();
    assert_eq!(names, vec!["COPY_LINEAR", "NOP", "AQL_BARRIER_OR"]);
}

#[test]
fn packet_names_are_listed_once() {
    let src = "/* Definitions for SDMA_PKT_NOP */\n/* Definitions for SDMA_PKT_NOP packet */\n";
    let names = collect_packet_names(src.as_bytes());
    assert_eq!(names.len(), 1);
    assert_eq!(text(&names[0]), "NOP");
}

#[test]
fn packet_name_keeps_what_the_comment_end_leaves() {
    // Slashes go first, then stars: a star before the slash stays.
    let names = collect_packet_names(b"/* Definitions for SDMA_PKT_NOP*/\n");
    assert_eq!(names.len(), 1);
    assert_eq!(text(&names[0]), "NOP*");
    // A section of another kind names nothing.
    assert!(collect_packet_names(b"/* Definitions for SDMA_MISC */\n").is_empty());
}

#[test]
fn numbers_are_hex_or_decimal() {
    assert_eq!(parse_u32_hex_or_dec(b" 0x10 "), Some(16));
    assert_eq!(parse_u32_hex_or_dec(b"0X1f"), Some(31));
    assert_eq!(parse_u32_hex_or_dec(b"0xFFFFFFFF"), Some(u32::MAX));
    assert_eq!(parse_u32_hex_or_dec(b"42"), Some(42));
    assert_eq!(parse_u32_hex_or_dec(b"+7"), Some(7));
    assert_eq!(parse_u32_hex_or_dec(b"4294967295"), Some(u32::MAX));
    assert_eq!(parse_u32_hex_or_dec(b"4294967296"), None);
    assert_eq!(parse_u32_hex_or_dec(b"0x100000000"), None);
    assert_eq!(parse_u32_hex_or_dec(b"-1"), None);
    assert_eq!(parse_u32_hex_or_dec(b"0x"), None);
    assert_eq!(parse_u32_hex_or_dec(b""), None);
    assert_eq!(parse_u32_hex_or_dec(b"+"), None);
    assert_eq!(parse_u32_hex_or_dec(b"12ab"), None);
    assert_eq!(parse_u32_hex_or_dec(b"0x+5"), Some(5));
}

#[test]
fn raw_fields_skip_op_and_split_word_from_field() {
    let names = collect_packet_names(HEADER.as_bytes());
    let fields = parse_raw_fields(HEADER.as_bytes(), &names);
    let got: Vec<(String, String, String, u32, u32, u32)> = fields
        .iter()
        .map(|f| (text(&f.pkt_name), text(&f.word_name), text(&f.field_name), f.dw, f.mask, f.shift))
        .collect();
    let want: Vec<(String, String, String, u32, u32, u32)> = vec![
        ("COPY_LINEAR", "HEADER", "encrypt", 0, 1, 16),
        ("COPY_LINEAR", "COUNT", "count", 1, 0x3f_ffff, 0),
        ("COPY_LINEAR", "SRC_ADDR_LO", "src_addr_31_0", 3, 0xffff_ffff, 0),
        ("COPY_LINEAR", "SRC_ADDR_HI", "src_addr_63_32", 4, 0xffff_ffff, 0),
        ("NOP", "HEADER", "count", 0, 0x3fff, 16),
        ("NOP", "DATA0", "data0", 1, 0xffff_ffff, 0),
        ("AQL_BARRIER_OR", "HEADER", "format", 0, 0xff, 0),
    ]
    .into_iter()
    .map(|(p, w, f, d, m, s)| (p.to_string(), w.to_string(), f.to_string(), d, m, s))
    .collect();
    assert_eq!(got, want);
}

#[test]
fn numeric_tokens_belong_to_the_word_name() {
    let src = "\
/* Definitions for SDMA_PKT_FENCE packet */
#define SDMA_PKT_FENCE_DW_3_data_offset 3
#define SDMA_PKT_FENCE_DW_3_data_mask 0xFFFFFFFF
#define SDMA_PKT_FENCE_DW_3_data_shift 0
";
    let names = collect_packet_names(src.as_bytes());
    let fields = parse_raw_fields(src.as_bytes(), &names);
    assert_eq!(fields.len(), 1);
    assert_eq!(text(&fields[0].word_name), "DW_3");
    assert_eq!(text(&fields[0].field_name), "data");
}

#[test]
fn longest_packet_name_wins() {
    let src = "\
/* Definitions for SDMA_PKT_COPY packet */
/* Definitions for SDMA_PKT_COPY_LINEAR packet */
#define SDMA_PKT_COPY_LINEAR_COUNT_count_offset 1
#define SDMA_PKT_COPY_LINEAR_COUNT_count_mask 0x3FFFFF
#define SDMA_PKT_COPY_LINEAR_COUNT_count_shift 0
";
    let names = collect_packet_names(src.as_bytes());
    let fields = parse_raw_fields(src.as_bytes(), &names);
    assert_eq!(fields.len(), 1);
    assert_eq!(text(&fields[0].pkt_name), "COPY_LINEAR");
    assert_eq!(text(&fields[0].word_name), "COUNT");
}

#[test]
fn incomplete_triples_give_no_field() {
    let src = "\
/* Definitions for SDMA_PKT_TRAP packet */
#define SDMA_PKT_TRAP_INT_CONTEXT_int_context_offset 1
#define SDMA_PKT_TRAP_INT_CONTEXT_int_context_mask 0x0FFFFFFF
";
    let names = collect_packet_names(src.as_bytes());
    assert!(parse_raw_fields(src.as_bytes(), &names).is_empty());
}

#[test]
fn pascal_case_names() {
    assert_eq!(text(&to_pascal(b"COPY_LINEAR")), "CopyLinear");
    assert_eq!(text(&to_pascal(b"AQL_BARRIER_OR")), "AqlBarrierOr");
    assert_eq!(text(&to_pascal(b"__a__bC_")), "ABc");
    assert_eq!(text(&to_pascal(b"")), "");
}

#[test]
fn bit_fields_are_ordered_by_shift_and_listed_once() {
    let src = "\
/* Definitions for SDMA_PKT_X packet */
#define SDMA_PKT_X_HEADER_b_offset 0
#define SDMA_PKT_X_HEADER_b_mask 0x1
#define SDMA_PKT_X_HEADER_b_shift 20
#define SDMA_PKT_X_HEADER_a_offset 0
#define SDMA_PKT_X_HEADER_a_mask 0x1
#define SDMA_PKT_X_HEADER_a_shift 16
#define SDMA_PKT_X_DATA_data_offset 2
#define SDMA_PKT_X_DATA_data_mask 0xFFFFFFFF
#define SDMA_PKT_X_DATA_data_shift 0
#define SDMA_PKT_X_OTHER_b_offset 0
#define SDMA_PKT_X_OTHER_b_mask 0x3
#define SDMA_PKT_X_OTHER_b_shift 24
";
    let names = collect_packet_names(src.as_bytes());
    let fields = parse_raw_fields(src.as_bytes(), &names);
    let packets = build_packets(fields, &names);
    assert_eq!(packets.len(), 1);
    let p = &packets[0];
    assert_eq!(text(p.name()), "X");
    assert_eq!(p.bits().len(), 1);
    assert_eq!(p.bits()[0].dw, 0);
    let fs: Vec<(String, u32)> = p.bits()[0].fields.iter().map(|f| (text(&f.name), f.shift)).collect();
    assert_eq!(fs, vec![("a".to_string(), 16), ("b".to_string(), 20)]);
    assert_eq!(p.full().len(), 1);
    assert_eq!(p.full()[0].dw, 2);
    assert_eq!(text(&p.full()[0].field_name), "data");
}

#[test]
fn bit_field_types_follow_the_mask_width() {
    assert_eq!(infer_type(0x1), "bool");
    assert_eq!(infer_type(0x8000_0000), "bool");
    assert_eq!(infer_type(0x3), "u8");
    assert_eq!(infer_type(0xff), "u8");
    assert_eq!(infer_type(0x8000_0001), "u8");
    assert_eq!(infer_type(0x1ff), "u16");
    assert_eq!(infer_type(0xffff), "u16");
    assert_eq!(infer_type(0x1_ffff), "u32");
    assert_eq!(infer_type(0), "u32");
}

#[test]
fn masks_are_lower_case_hex() {
    assert_eq!(text(&fmt_mask(0)), "0x0");
    assert_eq!(text(&fmt_mask(0x3f_ffff)), "0x3fffff");
    assert_eq!(text(&fmt_mask(0xffff_ffff)), "0xffffffff");
    assert_eq!(text(&fmt_mask(0xABC)), "0xabc");
}

#[test]
fn whole_header_is_described() {
    assert_eq!(text(&generate(HEADER.as_bytes())), EXPECTED);
}

#[test]
fn empty_header_gives_nothing() {
    assert!(generate(b"").is_empty());
    assert!(generate(b"#define SDMA_PKT_NOP_HEADER_count_offset 0\n").is_empty());
}

const TWO_LOWS: &str = "\
/* Definitions for SDMA_PKT_P packet */
#define SDMA_PKT_P_A_LO_x_31_0_offset 1
#define SDMA_PKT_P_A_LO_x_31_0_mask 0xFFFFFFFF
#define SDMA_PKT_P_A_LO_x_31_0_shift 0
#define SDMA_PKT_P_A_HI_x_63_32_offset 2
#define SDMA_PKT_P_A_HI_x_63_32_mask 0xFFFFFFFF
#define SDMA_PKT_P_A_HI_x_63_32_shift 0
#define SDMA_PKT_P_B_LO_x_31_0_offset 3
#define SDMA_PKT_P_B_LO_x_31_0_mask 0xFFFFFFFF
#define SDMA_PKT_P_B_LO_x_31_0_shift 0
";

#[test]
fn a_high_dword_joins_one_low_dword() {
    let names = collect_packet_names(TWO_LOWS.as_bytes());
    let packets = build_packets(parse_raw_fields(TWO_LOWS.as_bytes(), &names), &names);
    assert_eq!(packets.len(), 1);
    let joins = detect_joins(&packets[0]);
    assert_eq!(joins.len(), 1);
    assert_eq!((joins[0].lo, joins[0].hi), (1, 2));
    assert_eq!(text(&joins[0].name), "x");
    assert!(detect_dyn(&packets[0], &vec![1, 2]).is_none());
    assert_eq!(
        text(&generate(TWO_LOWS.as_bytes())),
        "P {\n\t@full\n\tdw[3] = x_31_0: u32;\n\t@join\n\tdw[1], dw[2] = x: u64;\n}\n\n"
    );
}

#[test]
fn pascal_case_follows_unicode_case_mapping() {
    assert_eq!(text(&to_pascal(b"copy_LINEAR")), "CopyLinear");
    assert_eq!(text(&to_pascal("élan_VITAL".as_bytes())), "ÉlanVital");
    assert_eq!(text(&to_pascal("ßa_ΣΑΣ".as_bytes())), "SSaΣας");
}

#[test]
fn unicode_white_space_and_lower_case_are_read() {
    let src = "\
/* Definitions for SDMA_PKT_FENCE packet */
\u{3000}#define SDMA_PKT_FENCE_DW_3_dätä_offset\u{2003}3\u{a0}
#define SDMA_PKT_FENCE_DW_3_dätä_mask\u{a0}0xFFFFFFFF
#define SDMA_PKT_FENCE_DW_3_dätä_shift\u{85}0
";
    let names = collect_packet_names(src.as_bytes());
    let fields = parse_raw_fields(src.as_bytes(), &names);
    assert_eq!(fields.len(), 1);
    assert_eq!(text(&fields[0].word_name), "DW_3");
    assert_eq!(text(&fields[0].field_name), "dätä");
    assert_eq!((fields[0].dw, fields[0].mask, fields[0].shift), (3, 0xFFFF_FFFF, 0));
}
