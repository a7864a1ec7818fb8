use can_utils_rs::dump::{
    can_interfaces_in, dump_banner, dump_modes, format_dump_target, parse_dump_filter,
    parse_dump_filters, parse_hex_u32, validate_can_id, validate_can_mask, DumpFilter, DumpMode,
    FilterError, FilterField,
};

#[test]
fn parses_comma_separated_ids_with_standard_default_mask() {
    let filters = parse_dump_filters("123, 0x456").unwrap();

    assert_eq!(filters.len(), 2);
    assert_eq!(filters[0].id, 0x123);
    assert_eq!(filters[0].mask, 0x7FF);
    assert_eq!(filters[1].id, 0x456);
    assert_eq!(filters[1].mask, 0x7FF);
}

#[test]
fn parses_candump_style_filters() {
    let filters = parse_dump_filters("0x123:0x7FF,0x456:0x7FF").unwrap();

    assert_eq!(filters.len(), 2);
    assert_eq!(filters[0].id, 0x123);
    assert_eq!(filters[0].mask, 0x7FF);
    assert_eq!(filters[1].id, 0x456);
    assert_eq!(filters[1].mask, 0x7FF);
}

#[test]
fn formats_candump_style_target() {
    let filters = parse_dump_filters("123,456").unwrap();

    assert_eq!(
        format_dump_target("can3", &filters),
        "can3,0x123:0x7FF,0x456:0x7FF"
    );
}

#[test]
fn extended_identifier_gets_extended_default_mask() {
    let f = parse_dump_filter("  0X1ABCDE ").unwrap();
    assert_eq!(f, DumpFilter { id: 0x1ABCDE, mask: 0x1FFF_FFFF });
    let f = parse_dump_filter("7FF").unwrap();
    assert_eq!(f, DumpFilter { id: 0x7FF, mask: 0x7FF });
    let f = parse_dump_filter("800").unwrap();
    assert_eq!(f, DumpFilter { id: 0x800, mask: 0x1FFF_FFFF });
}

#[test]
fn filter_errors_name_the_offending_part() {
    assert_eq!(parse_dump_filters("   ").unwrap_err(), FilterError::NoFilters);
    assert_eq!(parse_dump_filters("123,,456").unwrap_err(), FilterError::EmptyFilter);
    assert_eq!(
        parse_dump_filters("0x:7FF").unwrap_err(),
        FilterError::EmptyValue(FilterField::CanId)
    );
    assert_eq!(
        parse_dump_filters("123: 0X").unwrap_err(),
        FilterError::EmptyValue(FilterField::FilterMask)
    );
    assert_eq!(
        parse_dump_filters("12g").unwrap_err(),
        FilterError::NotHexadecimal(FilterField::CanId)
    );
    assert_eq!(
        parse_dump_filters("123:zz").unwrap_err(),
        FilterError::NotHexadecimal(FilterField::FilterMask)
    );
    assert_eq!(
        parse_dump_filters("123:100000000").unwrap_err(),
        FilterError::NotHexadecimal(FilterField::FilterMask)
    );
    assert_eq!(parse_dump_filters("20000000").unwrap_err(), FilterError::IdOutOfRange);
    assert_eq!(parse_dump_filters("1:20000000").unwrap_err(), FilterError::MaskOutOfRange);
    // The first refused entry decides.
    assert_eq!(parse_dump_filters("20000000,zz").unwrap_err(), FilterError::IdOutOfRange);
}

#[test]
fn filter_error_messages() {
    assert_eq!(FilterError::NoFilters.message(), "at least one CAN ID filter is required");
    assert_eq!(FilterError::EmptyFilter.message(), "empty CAN ID filter");
    assert_eq!(
        FilterError::EmptyValue(FilterField::FilterMask).message(),
        "filter mask cannot be empty"
    );
    assert_eq!(
        FilterError::NotHexadecimal(FilterField::CanId).message(),
        "CAN ID must be valid hexadecimal"
    );
    assert_eq!(FilterError::IdOutOfRange.message(), "CAN ID must be <= 0x1FFFFFFF");
    assert_eq!(FilterError::MaskOutOfRange.message(), "filter mask must be <= 0x1FFFFFFF");
}

#[test]
fn hex_numbers_accept_prefix_and_plus_sign() {
    assert_eq!(parse_hex_u32(" 0xff ", FilterField::CanId), Ok(0xFF));
    assert_eq!(parse_hex_u32("+1F", FilterField::CanId), Ok(0x1F));
    assert_eq!(parse_hex_u32("FFFFFFFF", FilterField::CanId), Ok(0xFFFF_FFFF));
    assert_eq!(
        parse_hex_u32("-1", FilterField::CanId),
        Err(FilterError::NotHexadecimal(FilterField::CanId))
    );
    assert_eq!(validate_can_id(0x1FFF_FFFF), Ok(()));
    assert_eq!(validate_can_id(0x2000_0000), Err(FilterError::IdOutOfRange));
    assert_eq!(validate_can_mask(0x2000_0000), Err(FilterError::MaskOutOfRange));
}

#[test]
fn candump_notation_reads_back() {
    let filters = vec![
        DumpFilter { id: 0x1FFF_FFFF, mask: 0 },
        DumpFilter { id: 0, mask: 0x7FF },
        DumpFilter { id: 0xABC, mask: 0x1F0 },
    ];
    let target = format_dump_target("vcan0", &filters);
    assert_eq!(target, "vcan0,0x1FFFFFFF:0x0,0x0:0x7FF,0xABC:0x1F0");
    let entries = &target["vcan0,".len()..];
    assert_eq!(parse_dump_filters(entries).unwrap(), filters);
    for f in &filters {
        assert_eq!(parse_dump_filter(&f.format_candump()).unwrap(), *f);
    }
    let high_id = DumpFilter { id: 0x2000_0000, mask: 0x3000_0000 };
    assert_eq!(parse_dump_filter(&high_id.format_candump()), Err(FilterError::IdOutOfRange));
    let high_mask = DumpFilter { id: 0x7FF, mask: 0xFFFF_FFFF };
    assert_eq!(parse_dump_filter(&high_mask.format_candump()), Err(FilterError::MaskOutOfRange));
}

#[test]
fn target_without_filters_is_the_interface() {
    assert_eq!(format_dump_target("can0", &Vec::new()), "can0");
}

#[test]
fn can_interfaces_are_listed_sorted() {
    let listing = "lo               UNKNOWN        00:00:00:00:00:00\n\
                   vcan0            UNKNOWN        \n\
                   can1             DOWN           \n\
                   eth0             UP             \n\
                   slcan0           UP             \n\
                   can0             UP             \n";
    assert_eq!(can_interfaces_in(listing), vec!["can0", "can1", "slcan0", "vcan0"]);
    assert!(can_interfaces_in("").is_empty());
}

#[test]
fn dump_banner_lines() {
    let none = dump_banner("can0", &Vec::new());
    assert_eq!(
        none,
        vec![
            "\u{1b}[1mPretty CAN Dump on\u{1b}[0m \u{1b}[1m\u{1b}[36mcan0\u{1b}[39m\u{1b}[0m",
            "\u{1b}[33mPress Ctrl+C to stop.\u{1b}[39m",
        ]
    );
    let filters = parse_dump_filters("123").unwrap();
    let some = dump_banner("can0", &filters);
    assert_eq!(some.len(), 3);
    assert_eq!(
        some[1],
        "\u{1b}[1mApplying filters:\u{1b}[0m \u{1b}[36mcan0,0x123:0x7FF\u{1b}[39m"
    );
}

#[test]
fn dump_mode_texts() {
    assert_eq!(dump_modes(), vec![DumpMode::AllFrames, DumpMode::FilterById]);
    assert_eq!(DumpMode::AllFrames.text(), "Dump all frames");
    assert_eq!(DumpMode::FilterById.text(), "Filter by one or more CAN IDs");
}
