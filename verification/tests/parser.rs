use defaultboot::ast::AutoConfig;
use defaultboot::ast::ParseError;
use defaultboot::ast::Section;
use defaultboot::parse::parse_section;

#[test]
fn parser_works() {
    let data = [
        (
            r#"
                    [defaultboot]
                    default = boot1
                "#,
            Ok(Section::Default("boot1")),
        ),
        (
            r#"
                    [defaultboot]
                    defaultmenu=menu1
                "#,
            Ok(Section::Menu("menu1")),
        ),
        (
            r#"
                    [defaultboot]
                    defaultauto
                    target=/boot
                    default=1
                "#,
            Ok(Section::Auto(AutoConfig {
                target: "/boot",
                default: "1",
                ..AutoConfig::default()
            })),
        ),
    ];

    for (input, result) in data {
        assert_eq!(result, parse_section(input));
    }
}

#[test]
fn default_label() {
    assert_eq!(
        parse_section("[defaultboot]\ndefault = boot1"),
        Ok(Section::Default("boot1"))
    );
}

#[test]
fn menu_label() {
    assert_eq!(
        parse_section("[defaultboot]\ndefaultmenu=menu1"),
        Ok(Section::Menu("menu1"))
    );
}

#[test]
fn auto_without_options_is_all_defaults() {
    assert_eq!(
        parse_section("[defaultboot]\ndefaultauto"),
        Ok(Section::Auto(AutoConfig {
            target: "",
            default: "",
            prompt: "",
            timeout: "",
            secure: "",
        }))
    );
}

#[test]
fn auto_with_target_and_default() {
    assert_eq!(
        parse_section("[defaultboot]\ndefaultauto\ntarget=/boot\ndefault=1"),
        Ok(Section::Auto(AutoConfig {
            target: "/boot",
            default: "1",
            prompt: "",
            timeout: "",
            secure: "",
        }))
    );
}

#[test]
fn last_explicit_value_wins() {
    let r = parse_section("[defaultboot]\ndefaultauto default=1 default=2");
    assert_eq!(
        r,
        Ok(Section::Auto(AutoConfig {
            default: "2",
            ..AutoConfig::default()
        }))
    );
}

#[test]
fn bare_keyword_does_not_clear() {
    let r = parse_section("[defaultboot]\ndefaultauto default=5 default");
    assert_eq!(
        r,
        Ok(Section::Auto(AutoConfig {
            default: "5",
            ..AutoConfig::default()
        }))
    );
}

#[test]
fn bare_keywords_of_every_optional_field() {
    let r = parse_section(
        "[defaultboot] defaultauto default=5 prompt=1 timeout=9 secure=0 default prompt timeout secure",
    );
    assert_eq!(
        r,
        Ok(Section::Auto(AutoConfig {
            target: "",
            default: "5",
            prompt: "1",
            timeout: "9",
            secure: "0",
        }))
    );
}

#[test]
fn secure_accepts_auto_keyword() {
    let r = parse_section("[defaultboot]\ndefaultauto\nsecure=auto");
    assert_eq!(
        r,
        Ok(Section::Auto(AutoConfig {
            secure: "auto",
            ..AutoConfig::default()
        }))
    );
}

#[test]
fn secure_accepts_two_digits() {
    let r = parse_section("[defaultboot]\ndefaultauto\nsecure=99");
    assert_eq!(
        r,
        Ok(Section::Auto(AutoConfig {
            secure: "99",
            ..AutoConfig::default()
        }))
    );
}

#[test]
fn secure_rejects_three_digits() {
    assert!(parse_section("[defaultboot]\ndefaultauto\nsecure=999").is_err());
}

#[test]
fn prompt_rejects_three_digits() {
    assert!(parse_section("[defaultboot]\ndefaultauto\nprompt=100").is_err());
}

#[test]
fn default_accepts_ten_digits_and_rejects_eleven() {
    assert_eq!(
        parse_section("[defaultboot]\ndefaultauto\ndefault=1234567890"),
        Ok(Section::Auto(AutoConfig {
            default: "1234567890",
            ..AutoConfig::default()
        }))
    );
    assert!(parse_section("[defaultboot]\ndefaultauto\ndefault=12345678901").is_err());
}

#[test]
fn timeout_keeps_leading_zeros() {
    assert_eq!(
        parse_section("[defaultboot]\ndefaultauto\ntimeout=0123"),
        Ok(Section::Auto(AutoConfig {
            timeout: "0123",
            ..AutoConfig::default()
        }))
    );
}

#[test]
fn permutations_fold_to_the_same_record() {
    let expected = Ok(Section::Auto(AutoConfig {
        target: "/t",
        default: "1",
        prompt: "2",
        timeout: "3",
        secure: "4",
    }));
    let orders = [
        "[defaultboot] defaultauto target=/t default=1 prompt=2 timeout=3 secure=4",
        "[defaultboot] defaultauto secure=4 timeout=3 prompt=2 default=1 target=/t",
        "[defaultboot] defaultauto prompt=2 target=/t secure=4 default=1 timeout=3",
        "[defaultboot] defaultauto default=1 secure=4 target=/t timeout=3 prompt=2",
    ];
    for input in orders {
        assert_eq!(parse_section(input), expected);
    }
}

#[test]
fn unknown_section_is_rejected() {
    assert_eq!(
        parse_section("[otherboot]\ndefault = boot1"),
        Err(ParseError { pos: 0 })
    );
}

#[test]
fn unknown_option_keyword_is_rejected() {
    assert_eq!(
        parse_section("[defaultboot]\ndefaultfoo=x"),
        Err(ParseError { pos: 14 })
    );
}

#[test]
fn empty_input_is_rejected() {
    assert_eq!(parse_section(""), Err(ParseError { pos: 0 }));
}

#[test]
fn header_alone_is_rejected() {
    assert_eq!(parse_section("[defaultboot]"), Err(ParseError { pos: 13 }));
}

#[test]
fn leftover_text_is_rejected_at_its_position() {
    assert_eq!(
        parse_section("[defaultboot]\ndefault=a extra"),
        Err(ParseError { pos: 24 })
    );
}

#[test]
fn default_without_value_at_top_level_is_rejected() {
    assert!(parse_section("[defaultboot]\ndefault=").is_err());
}

#[test]
fn numeric_top_level_label_is_rejected() {
    assert!(parse_section("[defaultboot]\ndefault=1\n").is_err());
}

#[test]
fn target_demands_a_path() {
    assert!(parse_section("[defaultboot]\ndefaultauto\ntarget=").is_err());
    assert!(parse_section("[defaultboot]\ndefaultauto\ntarget").is_err());
}

#[test]
fn multi_segment_and_relative_paths() {
    assert_eq!(
        parse_section("[defaultboot] defaultauto target=/boot/vmlinuz_5"),
        Ok(Section::Auto(AutoConfig {
            target: "/boot/vmlinuz_5",
            ..AutoConfig::default()
        }))
    );
    assert_eq!(
        parse_section("[defaultboot] defaultauto target=boot/img"),
        Ok(Section::Auto(AutoConfig {
            target: "boot/img",
            ..AutoConfig::default()
        }))
    );
}

#[test]
fn trailing_slash_is_not_part_of_a_path() {
    assert!(parse_section("[defaultboot] defaultauto target=/boot/").is_err());
}

#[test]
fn whitespace_is_insignificant_around_tokens() {
    assert_eq!(
        parse_section("\t [defaultboot] \r\n\tdefaultmenu \t= \r\n menu_2 \n"),
        Ok(Section::Menu("menu_2"))
    );
    assert_eq!(
        parse_section("[defaultboot]defaultauto target = /boot default = 7"),
        Ok(Section::Auto(AutoConfig {
            target: "/boot",
            default: "7",
            ..AutoConfig::default()
        }))
    );
}

#[test]
fn labels_may_hold_digits_and_underscores() {
    assert_eq!(
        parse_section("[defaultboot]\ndefault = boot_1x"),
        Ok(Section::Default("boot_1x"))
    );
    assert_eq!(
        parse_section("[defaultboot]\ndefaultmenu = _m9"),
        Ok(Section::Menu("_m9"))
    );
}

#[test]
fn equals_without_option_value_is_rejected() {
    assert!(parse_section("[defaultboot]\ndefaultauto default= target=/boot").is_err());
}

#[test]
fn repeated_options_mix_explicit_and_bare() {
    let r = parse_section(
        "[defaultboot]\ndefaultauto\ntarget=/a\ndefault=1\ntarget=/b\ndefault\ntimeout=30\ntimeout",
    );
    assert_eq!(
        r,
        Ok(Section::Auto(AutoConfig {
            target: "/b",
            default: "1",
            timeout: "30",
            ..AutoConfig::default()
        }))
    );
}
