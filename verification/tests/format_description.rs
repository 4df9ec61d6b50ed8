use time::format_description::well_known::{iso_date, iso_time, rfc3339};
use time::format_description::{
    parse, Component, FormatDescription, FormatItem, InvalidFormatDescription, Padding,
    SubsecondDigits, WeekNumberRepr,
};

fn items(description: &FormatDescription) -> Vec<FormatItem> {
    (0..description.len()).map(|index| description.item(index).clone()).collect()
}

fn compiled(source: &str) -> Vec<FormatItem> {
    items(&parse(source.as_bytes()).unwrap())
}

fn literal(text: &str) -> FormatItem {
    FormatItem::Literal(text.as_bytes().to_vec())
}

fn year() -> Component {
    Component::Year { padding: Padding::Zero, iso_week_based: false, sign_is_mandatory: false }
}

#[test]
fn compiles_text_and_components_in_order() {
    assert_eq!(
        compiled("[year]-[month]-[day]"),
        vec![
            FormatItem::Component(year()),
            literal("-"),
            FormatItem::Component(Component::Month { padding: Padding::Zero }),
            literal("-"),
            FormatItem::Component(Component::Day { padding: Padding::Zero }),
        ]
    );
    assert_eq!(compiled(""), vec![]);
    assert_eq!(compiled("plain text"), vec![literal("plain text")]);
    assert_eq!(
        compiled("on [day] at"),
        vec![
            literal("on "),
            FormatItem::Component(Component::Day { padding: Padding::Zero }),
            literal(" at"),
        ]
    );
    assert_eq!(compiled("a]b"), vec![literal("a]b")]);
}

#[test]
fn two_opening_brackets_are_one_bracket_of_text() {
    assert_eq!(compiled("[["), vec![literal("[")]);
    assert_eq!(compiled("a[[b"), vec![literal("a"), literal("["), literal("b")]);
    assert_eq!(
        compiled("[[[day]]"),
        vec![
            literal("["),
            FormatItem::Component(Component::Day { padding: Padding::Zero }),
            literal("]"),
        ]
    );
}

#[test]
fn every_component_has_a_name_and_defaults() {
    let expected = [
        ("day", Component::Day { padding: Padding::Zero }),
        ("month", Component::Month { padding: Padding::Zero }),
        ("ordinal", Component::Ordinal { padding: Padding::Zero }),
        ("weekday", Component::Weekday { from_sunday: false, one_indexed: true }),
        ("week_number", Component::WeekNumber { padding: Padding::Zero, repr: WeekNumberRepr::Iso }),
        ("year", year()),
        ("hour", Component::Hour { padding: Padding::Zero, is_12_hour_clock: false }),
        ("minute", Component::Minute { padding: Padding::Zero }),
        ("period", Component::Period { is_uppercase: true }),
        ("second", Component::Second { padding: Padding::Zero }),
        ("subsecond", Component::Subsecond { digits: SubsecondDigits::OneOrMore }),
        ("offset_hour", Component::OffsetHour { padding: Padding::Zero, sign_is_mandatory: false }),
        ("offset_minute", Component::OffsetMinute { padding: Padding::Zero }),
        ("offset_second", Component::OffsetSecond { padding: Padding::Zero }),
    ];
    for (name, component) in expected {
        assert_eq!(compiled(&format!("[{}]", name)), vec![FormatItem::Component(component)]);
        assert_eq!(compiled(&format!("[  {}\t]", name)), vec![FormatItem::Component(component)]);
        assert_eq!(component.name(), name);
    }
}

#[test]
fn modifiers_change_how_a_component_is_written() {
    let one = |source: &str| match &compiled(source)[..] {
        [FormatItem::Component(component)] => *component,
        other => panic!("{:?}", other),
    };
    assert_eq!(one("[day padding=space]"), Component::Day { padding: Padding::Space });
    assert_eq!(one("[day padding=none]"), Component::Day { padding: Padding::Unpadded });
    assert_eq!(one("[day padding=none padding=zero]"), Component::Day { padding: Padding::Zero });
    assert_eq!(
        one("[year sign=mandatory base=iso_week padding=space]"),
        Component::Year { padding: Padding::Space, iso_week_based: true, sign_is_mandatory: true }
    );
    assert_eq!(one("[year sign=automatic base=calendar]"), year());
    assert_eq!(
        one("[hour repr=12 padding=none]"),
        Component::Hour { padding: Padding::Unpadded, is_12_hour_clock: true }
    );
    assert_eq!(
        one("[hour repr=24]"),
        Component::Hour { padding: Padding::Zero, is_12_hour_clock: false }
    );
    assert_eq!(
        one("[week_number repr=sunday]"),
        Component::WeekNumber { padding: Padding::Zero, repr: WeekNumberRepr::Sunday }
    );
    assert_eq!(
        one("[week_number repr=monday padding=none]"),
        Component::WeekNumber { padding: Padding::Unpadded, repr: WeekNumberRepr::Monday }
    );
    assert_eq!(
        one("[weekday repr=sunday one_indexed=false]"),
        Component::Weekday { from_sunday: true, one_indexed: false }
    );
    assert_eq!(
        one("[weekday repr=monday one_indexed=true]"),
        Component::Weekday { from_sunday: false, one_indexed: true }
    );
    assert_eq!(one("[period case=lower]"), Component::Period { is_uppercase: false });
    assert_eq!(one("[period case=upper]"), Component::Period { is_uppercase: true });
    assert_eq!(
        one("[subsecond digits=3]"),
        Component::Subsecond { digits: SubsecondDigits::Exactly(3) }
    );
    assert_eq!(
        one("[subsecond digits=9]"),
        Component::Subsecond { digits: SubsecondDigits::Exactly(9) }
    );
    assert_eq!(
        one("[subsecond digits=1+]"),
        Component::Subsecond { digits: SubsecondDigits::OneOrMore }
    );
    assert_eq!(
        one("[offset_hour sign=mandatory]"),
        Component::OffsetHour { padding: Padding::Zero, sign_is_mandatory: true }
    );
    assert_eq!(
        one("[offset_minute padding=none]"),
        Component::OffsetMinute { padding: Padding::Unpadded }
    );
    assert_eq!(
        Component::Day { padding: Padding::Zero }.with_padding(Padding::Space),
        Some(Component::Day { padding: Padding::Space })
    );
    assert_eq!(Component::Period { is_uppercase: true }.with_padding(Padding::Space), None);
    assert_eq!(Component::Day { padding: Padding::Zero }.with_sign(true), None);
    assert_eq!(
        year().with_sign(true),
        Some(Component::Year { padding: Padding::Zero, iso_week_based: false, sign_is_mandatory: true })
    );
}

#[test]
fn an_unclosed_bracket_is_reported_where_it_opens() {
    assert_eq!(
        parse(b"[year").unwrap_err(),
        InvalidFormatDescription::UnclosedOpeningBracket { index: 0 }
    );
    assert_eq!(
        parse(b"[year]-[month").unwrap_err(),
        InvalidFormatDescription::UnclosedOpeningBracket { index: 7 }
    );
    assert_eq!(
        parse(b"abc[").unwrap_err(),
        InvalidFormatDescription::UnclosedOpeningBracket { index: 3 }
    );
}

#[test]
fn a_missing_or_unknown_name_is_reported() {
    assert_eq!(
        parse(b"[]").unwrap_err(),
        InvalidFormatDescription::MissingComponentName { index: 1 }
    );
    assert_eq!(
        parse(b"ab[  ]").unwrap_err(),
        InvalidFormatDescription::MissingComponentName { index: 5 }
    );
    assert_eq!(
        parse(b"[years]").unwrap_err(),
        InvalidFormatDescription::InvalidComponentName { name: b"years".to_vec(), index: 1 }
    );
    assert_eq!(
        parse(b"[day] [ Year padding=zero]").unwrap_err(),
        InvalidFormatDescription::InvalidComponentName { name: b"Year".to_vec(), index: 8 }
    );
    assert_eq!(
        parse(b"[padding=zero]").unwrap_err(),
        InvalidFormatDescription::InvalidComponentName { name: b"padding=zero".to_vec(), index: 1 }
    );
}

#[test]
fn an_invalid_modifier_names_its_component() {
    let modifier = |source: &str| match parse(source.as_bytes()).unwrap_err() {
        InvalidFormatDescription::InvalidModifier { component, value, index } => {
            (component, String::from_utf8(value).unwrap(), index)
        }
        other => panic!("{:?}", other),
    };
    assert_eq!(modifier("[day padding=wide]"), ("day", "padding=wide".to_string(), 5));
    assert_eq!(modifier("[day padding]"), ("day", "padding".to_string(), 5));
    assert_eq!(modifier("[day =zero]"), ("day", "=zero".to_string(), 5));
    assert_eq!(modifier("[day padding=]"), ("day", "padding=".to_string(), 5));
    assert_eq!(modifier("[minute repr=12]"), ("minute", "repr=12".to_string(), 8));
    assert_eq!(modifier("[day sign=mandatory]"), ("day", "sign=mandatory".to_string(), 5));
    assert_eq!(modifier("[period padding=zero]"), ("period", "padding=zero".to_string(), 8));
    assert_eq!(modifier("[weekday padding=zero]"), ("weekday", "padding=zero".to_string(), 9));
    assert_eq!(modifier("[subsecond digits=0]"), ("subsecond", "digits=0".to_string(), 11));
    assert_eq!(modifier("[subsecond digits=10]"), ("subsecond", "digits=10".to_string(), 11));
    assert_eq!(modifier("[hour base=calendar]"), ("hour", "base=calendar".to_string(), 6));
    assert_eq!(modifier("[year case=upper]"), ("year", "case=upper".to_string(), 6));
    assert_eq!(modifier("[year one_indexed=true]"), ("year", "one_indexed=true".to_string(), 6));
    assert_eq!(
        modifier("x[year padding=none  sign=never]"),
        ("year", "sign=never".to_string(), 21)
    );
    assert_eq!(modifier("[week_number repr=12]"), ("week_number", "repr=12".to_string(), 13));
}

#[test]
fn well_known_descriptions_match_their_sources() {
    assert_eq!(iso_date(), parse(b"[year]-[month]-[day]").unwrap());
    assert_eq!(iso_time(), parse(b"[hour]:[minute]:[second]").unwrap());
    assert_eq!(
        rfc3339(),
        parse(
            b"[year]-[month]-[day]T[hour]:[minute]:[second][offset_hour sign=mandatory]:[offset_minute]"
        )
        .unwrap()
    );
    assert_eq!(
        FormatDescription::from_items(vec![literal("a")]).unwrap(),
        parse(b"a").unwrap()
    );
}

#[test]
fn a_description_made_of_items_must_be_well_formed() {
    let good = vec![
        FormatItem::Component(Component::Subsecond { digits: SubsecondDigits::Exactly(9) }),
        literal("s"),
    ];
    assert_eq!(FormatDescription::from_items(good).unwrap(), parse(b"[subsecond digits=9]s").unwrap());
    for count in [0u8, 10, 255] {
        let bad = vec![
            literal("s"),
            FormatItem::Component(Component::Subsecond { digits: SubsecondDigits::Exactly(count) }),
        ];
        assert_eq!(FormatDescription::from_items(bad), None);
        assert!(!Component::Subsecond { digits: SubsecondDigits::Exactly(count) }.is_wf());
    }
    assert!(Component::Subsecond { digits: SubsecondDigits::Exactly(1) }.is_wf());
    assert!(Component::Subsecond { digits: SubsecondDigits::OneOrMore }.is_wf());
    assert_eq!(FormatDescription::from_items(vec![]).unwrap().len(), 0);
}
