use bulb_relay::color::ColorTable;
use bulb_relay::command::{translate_canonical_name, translate_color_command, CommandError};

fn args(words: &[&str]) -> Vec<String> {
    words.iter().map(|w| w.to_string()).collect()
}

#[test]
fn translate_mixed_case_name() {
    let table = ColorTable::standard();
    assert_eq!(translate_color_command(&table, &args(&["Red"])), Ok(0xFF0000));
}

#[test]
fn translate_upper_case_name() {
    let table = ColorTable::standard();
    assert_eq!(translate_color_command(&table, &args(&["CYAN"])), Ok(0x00FFFF));
    assert_eq!(translate_color_command(&table, &args(&["white"])), Ok(0xFFFFFF));
}

#[test]
fn translate_two_arguments_is_a_count_error() {
    let table = ColorTable::standard();
    assert_eq!(
        translate_color_command(&table, &args(&["red", "extra"])),
        Err(CommandError::ArgumentCount)
    );
}

#[test]
fn translate_no_arguments_is_a_count_error() {
    let table = ColorTable::standard();
    assert_eq!(translate_color_command(&table, &args(&[])), Err(CommandError::ArgumentCount));
}

#[test]
fn translate_unknown_name() {
    let table = ColorTable::standard();
    assert_eq!(
        translate_color_command(&table, &args(&["chartreuse"])),
        Err(CommandError::UnknownColor)
    );
}

#[test]
fn translate_canonical_name_needs_lowercase() {
    let table = ColorTable::standard();
    assert_eq!(translate_canonical_name(&table, "blue"), Ok(0x0000FF));
    assert_eq!(translate_canonical_name(&table, "Blue"), Err(CommandError::UnknownColor));
}

#[test]
fn reply_texts() {
    assert_eq!(
        CommandError::ArgumentCount.reply_text(),
        "Invalid command format, color COLOR_NAME"
    );
    assert_eq!(CommandError::UnknownColor.reply_text(), "Invalid color");
}
