use hardware_profile::cpu::{
    generation_of, is_space, split_whitespace, strip_registered, CpuInfo, ParseError,
};

fn parse(brand: &str) -> CpuInfo {
    match CpuInfo::split_create_struct(brand) {
        Ok(info) => info,
        Err(e) => panic!("{:?}", e),
    }
}

#[test]
fn core_brand_string_has_its_family_name_as_fourth_token() {
    let brand = "Intel(R) Core(TM) i7-8700 CPU @ 3.20GHz";
    assert_eq!(
        split_whitespace(brand),
        vec!["Intel(R)", "Core(TM)", "i7-8700", "CPU", "@", "3.20GHz"]
    );
    let info = parse(brand);
    assert_eq!(info.vendor, "Intel");
    assert_eq!(info.model, "CPU");
    assert_eq!(info.get_generation(), "Unknown");
}

#[test]
fn xeon_brand_string_gives_vendor_model_and_generation() {
    let info = parse("Intel(R) Xeon(R) CPU E5-2670 0 @ 2.60GHz");
    assert_eq!(info.vendor, "Intel");
    assert_eq!(info.model, "E5-2670");
    assert_eq!(info.get_generation(), "2");
}

#[test]
fn generation_of_a_core_model_number() {
    assert_eq!(generation_of("i7-8700"), "8");
}

#[test]
fn two_tokens_are_malformed() {
    let parsed = CpuInfo::split_create_struct("AMD Ryzen");
    assert!(matches!(parsed, Err(ParseError::MalformedBrandString)));
}

#[test]
fn three_tokens_are_malformed() {
    let parsed = CpuInfo::split_create_struct("AMD Ryzen 7");
    assert!(matches!(parsed, Err(ParseError::MalformedBrandString)));
}

#[test]
fn empty_and_blank_brand_strings_are_malformed() {
    assert!(matches!(CpuInfo::split_create_struct(""), Err(ParseError::MalformedBrandString)));
    assert!(matches!(
        CpuInfo::split_create_struct("  \t \n "),
        Err(ParseError::MalformedBrandString)
    ));
}

#[test]
fn exactly_four_tokens_parse() {
    let info = parse("AMD Ryzen 7 5800X");
    assert_eq!(info.vendor, "AMD");
    assert_eq!(info.model, "5800X");
    assert_eq!(info.get_generation(), "Unknown");
}

#[test]
fn any_run_of_whitespace_separates_tokens() {
    let info = parse("\t Intel(R)\u{a0}\u{a0}Core(TM)\n\ni5-1135G7 \u{3000} CPU  ");
    assert_eq!(info.vendor, "Intel");
    assert_eq!(info.model, "CPU");
}

#[test]
fn tokens_agree_with_the_standard_splitter() {
    let samples = [
        "",
        " ",
        "a",
        " a",
        "a ",
        "a b",
        "  a  b  ",
        "Intel(R) Core(TM) i7-8700 CPU @ 3.20GHz",
        "x\ty\nz\r\u{b}w\u{c}v",
        "\u{85}a\u{1680}b\u{2000}c\u{200a}d\u{2028}e\u{2029}f\u{202f}g\u{205f}h\u{3000}",
        "a\u{200b}b \u{feff}c",
        "\u{e9} \u{e8}  \u{fc}",
    ];
    for s in samples {
        let expected: Vec<String> = s.split_whitespace().map(|t| t.to_string()).collect();
        assert_eq!(split_whitespace(s), expected, "{:?}", s);
    }
}

#[test]
fn whitespace_is_what_the_standard_library_calls_whitespace() {
    let mut u: u32 = 0;
    while u <= 0x3100 {
        if let Some(c) = char::from_u32(u) {
            assert_eq!(is_space(c), c.is_whitespace(), "{:x}", u);
        }
        u += 1;
    }
    assert!(!is_space('\u{feff}'));
    assert!(!is_space('\u{10ffff}'));
}

#[test]
fn every_registered_mark_leaves_the_vendor() {
    assert_eq!(strip_registered("Intel(R)"), "Intel");
    assert_eq!(strip_registered("(R)Intel"), "Intel");
    assert_eq!(strip_registered("(R)A(R)(R)B(R)"), "AB");
    assert_eq!(strip_registered("AMD"), "AMD");
    assert_eq!(strip_registered(""), "");
    assert_eq!(strip_registered("(R)"), "");
    assert_eq!(strip_registered("(R"), "(R");
    assert_eq!(strip_registered("(r)"), "(r)");
}

#[test]
fn a_mark_that_only_appears_after_removal_stays() {
    assert_eq!(strip_registered("((R)R)"), "(R)");
    assert_eq!(strip_registered("((R)R)"), "((R)R)".replace("(R)", ""));
}

#[test]
fn vendor_of_the_first_token_only() {
    let info = parse("X(R)Y(R) b(R) c d(R)");
    assert_eq!(info.vendor, "XY");
    assert_eq!(info.model, "d(R)");
}

#[test]
fn model_ending_in_dash_has_unknown_generation() {
    assert_eq!(generation_of("i9-"), "Unknown");
}

#[test]
fn model_without_dash_has_unknown_generation() {
    assert_eq!(generation_of("M2"), "Unknown");
    assert_eq!(generation_of(""), "Unknown");
}

#[test]
fn only_the_first_dash_counts() {
    assert_eq!(generation_of("a-b-c"), "b");
    assert_eq!(generation_of("a-b-"), "b");
    assert_eq!(generation_of("a--b"), "-");
    assert_eq!(generation_of("-x"), "x");
    assert_eq!(generation_of("-"), "Unknown");
}

#[test]
fn generation_is_one_character_whatever_its_width() {
    assert_eq!(generation_of("i7-\u{e9}700"), "\u{e9}");
    assert_eq!(generation_of("\u{e9}-8"), "8");
}

#[test]
fn generation_of_a_parsed_model() {
    let info = CpuInfo { vendor: String::from("Intel"), model: String::from("i5-1135G7") };
    assert_eq!(info.get_generation(), "1");
}

#[test]
fn malformed_brand_string_has_a_message() {
    assert_eq!(
        ParseError::MalformedBrandString.message(),
        "brand string has fewer than four whitespace-separated tokens"
    );
}
