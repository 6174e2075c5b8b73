use canteen::table::{Align, Color, ColumnType, TableDesc};

#[test]
fn pads() {
    assert_eq!(TableDesc::pad_gen(3, "-"), "---");
    assert_eq!(TableDesc::pad_gen(0, "-"), "");
    assert_eq!(TableDesc::pad_gen(2, "ab"), "abab");
}

#[test]
fn formats_fields() {
    assert_eq!(TableDesc::format_field("ab", 5, Align::Left), "ab   ");
    assert_eq!(TableDesc::format_field("ab", 5, Align::Right), "   ab");
    assert_eq!(TableDesc::format_field("ab", 5, Align::Center), " ab  ");
    assert_eq!(TableDesc::format_field("ab", 6, Align::Center), "  ab  ");
    assert_eq!(TableDesc::format_field("abc", 3, Align::Center), "abc");
}

#[test]
fn colours_text() {
    assert_eq!(TableDesc::color_text("x", Color::White), "\x1B[33m\x1B[37mx\x1B[33m\x1B[0m");
    assert_eq!(
        TableDesc::color_text("err", Color::BoldRed),
        "\x1B[33m\x1B[1m\x1B[33m\x1B[31merr\x1B[33m\x1B[0m"
    );
}

#[test]
fn aligns_by_type() {
    assert_eq!(TableDesc::get_alignment(&ColumnType::Int4), Align::Right);
    assert_eq!(TableDesc::get_alignment(&ColumnType::Date), Align::Right);
    assert_eq!(TableDesc::get_alignment(&ColumnType::Text), Align::Left);
    assert_eq!(TableDesc::get_alignment(&ColumnType::Bool), Align::Left);
}

const BW: &str = "\x1B[33m\x1B[1m\x1B[33m\x1B[37m";
const END: &str = "\x1B[33m\x1B[0m";

fn sample() -> TableDesc {
    let mut t = TableDesc::new();
    t.register_column("id".to_string(), ColumnType::Int4);
    t.register_column("name".to_string(), ColumnType::Text);
    t.append(vec![Some("7".to_string()), Some("alice".to_string())]);
    t.append(vec![Some("12".to_string()), None]);
    t
}

#[test]
fn tracks_widths_and_rows() {
    let t = sample();
    assert_eq!(t.widths, vec![2, 5]);
    assert_eq!(t.names, vec!["id".to_string(), "name".to_string()]);
    assert_eq!(t.data, vec![vec!["7".to_string(), "alice".to_string()], vec!["12".to_string(), String::new()]]);
}

#[test]
fn renders_rows() {
    let t = sample();
    let header = format!(
        " {BW}id{END} {BW}|{END} {BW}name {END} \n{BW}----{END}{BW}+{END}{BW}-------{END}\n"
    );
    assert_eq!(t.print_row(&t.names, true), header);
    let row = format!("  7 {BW}|{END} alice \n");
    assert_eq!(t.print_row(&t.data[0], false), row);
    let row2 = format!(" 12 {BW}|{END}       \n");
    assert_eq!(t.print_row(&t.data[1], false), row2);
    assert_eq!(t.print(), format!("{header}{row}{row2}"));
}
