use adoptme_processor::listing::build_listing;
use adoptme_processor::template::{
    join_lines, resolve_account_string_with_references, resolve_group_string_with_references, to_three_digits,
};
use adoptme_processor::{AccountEntry, ProcessorSettings};

#[test]
fn three_digits_by_repeated_division() {
    assert_eq!(to_three_digits(1234), "123");
    assert_eq!(to_three_digits(12345), "123");
    assert_eq!(to_three_digits(98765), "987");
    assert_eq!(to_three_digits(1000), "100");
    assert_eq!(to_three_digits(999), "999");
    assert_eq!(to_three_digits(42), "042");
    assert_eq!(to_three_digits(0), "000");
    assert_eq!(to_three_digits(u64::MAX), "184");
}

#[test]
fn bucks_placeholder_uses_three_digits() {
    let out = resolve_group_string_with_references("", 0, 1234, "${bucks}");
    assert_eq!(out, "123");
    let out = resolve_group_string_with_references("", 0, 12345, "cash ${bucks}k");
    assert_eq!(out, "cash 123k");
}

#[test]
fn group_placeholders_are_filled() {
    let out = resolve_group_string_with_references("Big Bundle", 200, 57, "${potions}+ pots, ${bucks} bucks: ${title}");
    assert_eq!(out, "200+ pots, 057 bucks: Big Bundle");
}

#[test]
fn every_occurrence_is_replaced() {
    let out = resolve_group_string_with_references("T", 40, 5, "${potions}/${potions} ${title}${title}");
    assert_eq!(out, "40/40 TT");
}

#[test]
fn unknown_placeholders_stay() {
    let out = resolve_group_string_with_references("T", 40, 5, "${foo} ${username} ${Potions}");
    assert_eq!(out, "${foo} ${username} ${Potions}");
    let out = resolve_account_string_with_references("u", "p", "${potions} ${title}");
    assert_eq!(out, "${potions} ${title}");
}

#[test]
fn text_without_placeholders_is_unchanged() {
    let text = "Plain text, $ and {braces} and ${ but no token";
    assert_eq!(resolve_group_string_with_references("T", 1, 2, text), text);
    assert_eq!(resolve_account_string_with_references("u", "p", text), text);
    assert_eq!(resolve_group_string_with_references("T", 1, 2, ""), "");
}

#[test]
fn later_tokens_see_earlier_values() {
    let out = resolve_account_string_with_references("${password}", "secret", "${username}:${password}");
    assert_eq!(out, "secret:secret");
    let out = resolve_account_string_with_references("a", "${username}", "${password}");
    assert_eq!(out, "${username}");
}

#[test]
fn account_placeholders_are_filled() {
    let out = resolve_account_string_with_references("alice", "hunter2", "user ${username} pass ${password}");
    assert_eq!(out, "user alice pass hunter2");
}

#[test]
fn lines_are_joined_with_newlines() {
    assert_eq!(join_lines(&vec!["a".to_string(), "b".to_string(), "c".to_string()]), "a\nb\nc");
    assert_eq!(join_lines(&vec!["only".to_string()]), "only");
    assert_eq!(join_lines(&Vec::new()), "");
}

#[test]
fn listing_is_built_from_a_group() {
    let settings = ProcessorSettings {
        potion_grouping: 20,
        image_path: "images/${potions}.png".to_string(),
        title: "${potions}+ Pots | ${bucks} | ${title}".to_string(),
        description: vec!["About: ${title}".to_string(), "Cash ${bucks}".to_string()],
        sold_message: vec!["Login: ${username}".to_string(), "Pass: ${password}".to_string()],
    };
    let group = vec![
        AccountEntry::new("u1".to_string(), "pw1".to_string(), 1500, 205),
        AccountEntry::new("u2".to_string(), "pw2".to_string(), 900, 219),
    ];
    let listing = build_listing(&group, &settings, "40.00".to_string());
    assert_eq!(listing.min_potions, 200);
    assert_eq!(listing.min_bucks, 900);
    assert_eq!(listing.title, "200+ Pots | 900 | ");
    assert_eq!(listing.description, "About: 200+ Pots | 900 | \nCash 900");
    assert_eq!(listing.image_path, "images/200.png");
    assert_eq!(listing.accounts, vec!["Login: u1\nPass: pw1".to_string(), "Login: u2\nPass: pw2".to_string()]);
    assert_eq!(listing.sell_price, "40.00");
}
