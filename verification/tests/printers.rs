use k_print::attributes::{Attribute, AttributeGroup, AttributeValue, GroupTag, IppResponse};
use k_print::directory::{printer_from_group, PrinterDirectory};
use k_print::error::PrinterError;
use k_print::printer::{
    get_printer, get_printers, PaperSize, PaperType, Printer, PrinterName, PrinterUri,
};

fn text(name: &str, value: &str) -> Attribute {
    Attribute { name: name.to_string(), value: AttributeValue::Text(value.to_string()) }
}

fn keyword(name: &str, value: &str) -> Attribute {
    Attribute { name: name.to_string(), value: AttributeValue::Keyword(value.to_string()) }
}

fn list(name: &str, values: &[&str]) -> Attribute {
    Attribute {
        name: name.to_string(),
        value: AttributeValue::List(values.iter().map(|v| v.to_string()).collect()),
    }
}

fn printer_group(name: &str, uri: &str, sizes: &[&str], kinds: &[&str]) -> AttributeGroup {
    AttributeGroup {
        tag: GroupTag::Printer,
        attributes: vec![
            text("printer-name", name),
            text("printer-uri-supported", uri),
            list("media-supported", sizes),
            list("media-type-supported", kinds),
        ],
    }
}

fn operation_group() -> AttributeGroup {
    AttributeGroup {
        tag: GroupTag::Operation,
        attributes: vec![text("attributes-charset", "utf-8"), text("printer-name", "not a printer")],
    }
}

fn printer(name: &str, uri: &str, sizes: &[&str], kinds: &[&str]) -> Printer {
    Printer {
        name: PrinterName(name.to_string()),
        printer_uri: PrinterUri(uri.to_string()),
        paper_sizes: sizes.iter().map(|s| PaperSize(s.to_string())).collect(),
        paper_types: kinds.iter().map(|s| PaperType(s.to_string())).collect(),
    }
}

fn two_printers() -> IppResponse {
    IppResponse {
        status_code: 0,
        groups: vec![
            operation_group(),
            printer_group(
                "office",
                "ipp://localhost:631/printers/office",
                &["iso_a4_210x297mm", "na_letter_8.5x11in"],
                &["stationery", "photographic"],
            ),
            printer_group(
                "photo",
                "ipp://localhost:631/printers/photo",
                &["na_index-4x6_4x6in"],
                &["photographic-glossy"],
            ),
        ],
    }
}

#[test]
fn every_printer_group_becomes_a_printer() {
    let printers = get_printers(&two_printers()).unwrap();
    assert_eq!(printers.len(), 2);
    assert_eq!(
        printers.printers(),
        &vec![
            printer(
                "office",
                "ipp://localhost:631/printers/office",
                &["iso_a4_210x297mm", "na_letter_8.5x11in"],
                &["stationery", "photographic"],
            ),
            printer(
                "photo",
                "ipp://localhost:631/printers/photo",
                &["na_index-4x6_4x6in"],
                &["photographic-glossy"],
            ),
        ]
    );
    assert_eq!(printers.get(&PrinterName("photo".to_string())), Some(&printers.printers()[1]));
    assert_eq!(printers.get(&PrinterName("Photo".to_string())), None);
}

#[test]
fn a_failing_status_means_no_printers() {
    for status_code in [3u16, 0x0400, 0x0406, 0x0500, 0xffff] {
        let mut response = two_printers();
        response.status_code = status_code;
        assert_eq!(get_printers(&response).err(), Some(PrinterError::NoPrinters));
    }
}

#[test]
fn the_three_successful_codes_are_taken() {
    for status_code in [0u16, 1, 2] {
        let mut response = two_printers();
        response.status_code = status_code;
        assert!(response.is_success());
        assert_eq!(get_printers(&response).unwrap().len(), 2);
    }
    let mut response = two_printers();
    response.status_code = 0x0501;
    assert!(!response.is_success());
}

#[test]
fn a_response_without_printer_groups_means_no_printers() {
    let empty = IppResponse { status_code: 0, groups: Vec::new() };
    assert_eq!(get_printers(&empty).err(), Some(PrinterError::NoPrinters));
    let no_printer = IppResponse { status_code: 0, groups: vec![operation_group()] };
    assert_eq!(get_printers(&no_printer).err(), Some(PrinterError::NoPrinters));
}

#[test]
fn the_first_missing_attribute_is_named() {
    let whole = printer_group("p", "ipp://h/p", &["a4"], &["plain"]);
    let names = ["printer-name", "printer-uri-supported", "media-supported", "media-type-supported"];
    for (at, name) in names.iter().enumerate() {
        let mut group = printer_group("p", "ipp://h/p", &["a4"], &["plain"]);
        group.attributes.remove(at);
        assert_eq!(
            printer_from_group(&group),
            Err(PrinterError::MissingAttribute(name.to_string()))
        );
        let response = IppResponse {
            status_code: 0,
            groups: vec![printer_group("ok", "ipp://h/ok", &["a4"], &["plain"]), group],
        };
        assert_eq!(
            get_printers(&response).err(),
            Some(PrinterError::MissingAttribute(name.to_string()))
        );
    }
    assert!(printer_from_group(&whole).is_ok());
    let bare = AttributeGroup { tag: GroupTag::Printer, attributes: Vec::new() };
    assert_eq!(
        printer_from_group(&bare),
        Err(PrinterError::MissingAttribute("printer-name".to_string()))
    );
}

#[test]
fn an_attribute_of_the_wrong_kind_counts_as_missing() {
    let mut group = printer_group("p", "ipp://h/p", &["a4"], &["plain"]);
    group.attributes[0] =
        Attribute { name: "printer-name".to_string(), value: AttributeValue::Integer(7) };
    assert_eq!(
        printer_from_group(&group),
        Err(PrinterError::MissingAttribute("printer-name".to_string()))
    );
    let mut group = printer_group("p", "ipp://h/p", &["a4"], &["plain"]);
    group.attributes[1] = list("printer-uri-supported", &["ipp://h/p", "ipps://h/p"]);
    assert_eq!(
        printer_from_group(&group),
        Err(PrinterError::MissingAttribute("printer-uri-supported".to_string()))
    );
    let mut group = printer_group("p", "ipp://h/p", &["a4"], &["plain"]);
    group.attributes[2] =
        Attribute { name: "media-supported".to_string(), value: AttributeValue::Enum(3) };
    assert_eq!(
        printer_from_group(&group),
        Err(PrinterError::MissingAttribute("media-supported".to_string()))
    );
}

#[test]
fn a_single_value_is_a_list_of_one() {
    let group = AttributeGroup {
        tag: GroupTag::Printer,
        attributes: vec![
            keyword("printer-name", "solo"),
            text("printer-uri-supported", "ipp://h/solo"),
            keyword("media-supported", "iso_a4_210x297mm"),
            text("media-type-supported", "stationery"),
        ],
    };
    assert_eq!(
        printer_from_group(&group),
        Ok(printer("solo", "ipp://h/solo", &["iso_a4_210x297mm"], &["stationery"]))
    );
}

#[test]
fn the_first_attribute_of_a_name_is_read() {
    let mut group = printer_group("first", "ipp://h/p", &["a4"], &["plain"]);
    group.attributes.push(text("printer-name", "second"));
    assert_eq!(printer_from_group(&group).unwrap().name, PrinterName("first".to_string()));
    assert_eq!(group.text("printer-name"), Some("first".to_string()));
    assert_eq!(group.text("printer-nam"), None);
    assert_eq!(group.texts("media-supported"), Some(vec!["a4".to_string()]));
    assert_eq!(group.integer("media-supported"), None);
    assert!(group.find("media-type-supported").is_some());
    assert!(group.find("job-id").is_none());
}

#[test]
fn media_that_come_twice_are_kept_once() {
    let group = printer_group(
        "p",
        "ipp://h/p",
        &["a4", "b5", "a4", "a6", "b5", "a4"],
        &["plain", "plain", "glossy"],
    );
    let read = printer_from_group(&group).unwrap();
    assert_eq!(read, printer("p", "ipp://h/p", &["a4", "b5", "a6"], &["plain", "glossy"]));
}

#[test]
fn a_later_printer_of_the_same_name_stands() {
    let response = IppResponse {
        status_code: 0,
        groups: vec![
            printer_group("twin", "ipp://h/one", &["a4"], &["plain"]),
            printer_group("other", "ipp://h/other", &["a6"], &["plain"]),
            printer_group("twin", "ipp://h/two", &["b5"], &["glossy"]),
        ],
    };
    let printers = get_printers(&response).unwrap();
    assert_eq!(printers.len(), 2);
    assert_eq!(
        printers.get(&PrinterName("twin".to_string())),
        Some(&printer("twin", "ipp://h/two", &["b5"], &["glossy"]))
    );
    assert_eq!(
        get_printer(&response, &PrinterName("twin".to_string())),
        Ok(printer("twin", "ipp://h/two", &["b5"], &["glossy"]))
    );
    assert_eq!(printers.printers()[0].name, PrinterName("twin".to_string()));
    assert_eq!(printers.printers()[1].name, PrinterName("other".to_string()));
}

#[test]
fn a_directory_files_printers_under_their_names() {
    let empty = PrinterDirectory::new();
    assert_eq!(empty.len(), 0);
    assert_eq!(empty.get(&PrinterName("p".to_string())), None);
    let one = empty.insert(printer("p", "ipp://h/1", &["a4"], &["plain"]));
    assert_eq!(one.len(), 1);
    let two = one.insert(printer("q", "ipp://h/2", &["a4"], &["plain"]));
    assert_eq!(two.len(), 2);
    let still_two = two.insert(printer("p", "ipp://h/3", &["a4"], &["plain"]));
    assert_eq!(still_two.len(), 2);
    assert_eq!(
        still_two.get(&PrinterName("p".to_string())).unwrap().printer_uri,
        PrinterUri("ipp://h/3".to_string())
    );
}

#[test]
fn a_printer_is_found_by_its_exact_name() {
    let response = two_printers();
    let found = get_printer(&response, &PrinterName("office".to_string())).unwrap();
    assert_eq!(found.printer_uri, PrinterUri("ipp://localhost:631/printers/office".to_string()));
    assert_eq!(
        get_printer(&response, &PrinterName("office ".to_string())),
        Err(PrinterError::PrinterNotFound("office ".to_string()))
    );
    assert_eq!(
        get_printer(&response, &PrinterName("OFFICE".to_string())),
        Err(PrinterError::PrinterNotFound("OFFICE".to_string()))
    );
    let mut failing = two_printers();
    failing.status_code = 0x0400;
    assert_eq!(
        get_printer(&failing, &PrinterName("office".to_string())),
        Err(PrinterError::NoPrinters)
    );
}

#[test]
fn a_printer_knows_its_media() {
    let p = printer("p", "ipp://h/p", &["na_letter_8.5x11in"], &["stationery"]);
    assert!(p.has_paper_size(&PaperSize("na_letter_8.5x11in".to_string())));
    assert!(!p.has_paper_size(&PaperSize("na_letter".to_string())));
    assert!(!p.has_paper_size(&PaperSize("stationery".to_string())));
    assert!(p.has_paper_type(&PaperType("stationery".to_string())));
    assert!(!p.has_paper_type(&PaperType("Stationery".to_string())));
    assert_eq!(p.clone(), p);
}

#[test]
fn the_size_is_checked_before_the_type() {
    let p = printer("p", "ipp://h/p", &["na_letter_8.5x11in"], &["stationery"]);
    assert_eq!(
        p.check_media(&PaperSize("iso_a4".to_string()), &PaperType("glossy".to_string())),
        Err(PrinterError::MediaSizeUnsupported("iso_a4".to_string()))
    );
}

#[test]
fn supported_media_pass_and_others_are_named() {
    let p = printer("p", "ipp://h/p", &["na_letter_8.5x11in"], &["stationery"]);
    assert_eq!(
        p.check_media(
            &PaperSize("na_letter_8.5x11in".to_string()),
            &PaperType("stationery".to_string())
        ),
        Ok(())
    );
    assert_eq!(
        p.check_media(&PaperSize("iso_a4".to_string()), &PaperType("stationery".to_string())),
        Err(PrinterError::MediaSizeUnsupported("iso_a4".to_string()))
    );
    assert_eq!(
        p.check_media(
            &PaperSize("na_letter_8.5x11in".to_string()),
            &PaperType("glossy".to_string())
        ),
        Err(PrinterError::MediaTypeUnsupported("glossy".to_string()))
    );
}

#[test]
fn no_other_status_code_counts_as_success() {
    for status_code in 0..=u16::MAX {
        let response = IppResponse { status_code, groups: Vec::new() };
        assert_eq!(response.is_success(), status_code <= 2, "{:#06x}", status_code);
    }
}
