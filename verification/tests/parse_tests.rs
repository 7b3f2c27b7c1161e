use solar_rs::error::SolarError;
use solar_rs::parsers::{decode_grid, ingest_sources, parse_csv_bytes, spreadsheet_kind, Cell,
    FileKind, Source, SourceContent};
use solar_rs::solarman_record::{parse_date, parse_decimal, SolarmanRecord};
use solar_rs::timestamp::Timestamp;

fn text(s: &str) -> Cell {
    Cell::Text(String::from(s))
}

fn header() -> Vec<Cell> {
    vec![
        text("Updated Time"),
        text("Production Power(W)"),
        text("Consumption Power(W)"),
        text("Grid Power(W)"),
        text("Battery Power(W)"),
        text("SoC(%)"),
    ]
}

#[test]
fn test_deserialize_decimal() {
    let result = parse_decimal("123.00");
    assert_eq!(result, Some(123));
    assert_eq!(parse_decimal("123"), Some(123));
}

#[test]
fn test_deserialize_date() {
    let expected = Timestamp { year: 2023, month: 5, day: 24, hour: 1, minute: 35 };
    let result = parse_date("2023/05/24 01:35");
    assert_eq!(result, Some(expected));
}

#[test]
fn test_deserialize_solarman_record() {
    let rows = vec![
        header(),
        vec![
            text("2023/05/24 01:35"),
            Cell::Number(123),
            Cell::Number(456),
            Cell::Number(-789),
            Cell::Number(1011),
            Cell::Number(12),
        ],
    ];
    let expected = SolarmanRecord {
        time: Timestamp { year: 2023, month: 5, day: 24, hour: 1, minute: 35 },
        production: 123,
        consumption: 456,
        grid: -789,
        battery: 1011,
        soc: 12,
    };
    let decoded = decode_grid(&rows).unwrap();
    assert_eq!(decoded, vec![expected]);
}

#[test]
fn test_decimal_rounding_and_signs() {
    assert_eq!(parse_decimal("12.5"), Some(13));
    assert_eq!(parse_decimal("12.49"), Some(12));
    assert_eq!(parse_decimal("-12.5"), Some(-13));
    assert_eq!(parse_decimal("-12.49"), Some(-12));
    assert_eq!(parse_decimal("+7.001"), Some(7));
    assert_eq!(parse_decimal(".5"), Some(1));
    assert_eq!(parse_decimal("3."), Some(3));
    assert_eq!(parse_decimal("007"), Some(7));
    assert_eq!(parse_decimal(""), None);
    assert_eq!(parse_decimal("abc"), None);
    assert_eq!(parse_decimal("1.2.3"), None);
    assert_eq!(parse_decimal("."), None);
    assert_eq!(parse_decimal("-"), None);
}

#[test]
fn test_date_rejects_bad_forms() {
    assert_eq!(parse_date("2023/13/24 01:35"), None);
    assert_eq!(parse_date("2023/02/30 01:35"), None);
    assert_eq!(parse_date("2023/05/24 24:00"), None);
    assert_eq!(parse_date("2023-05-24 01:35"), None);
    assert_eq!(parse_date("2023/05/24"), None);
    // A leap day parses.
    assert_eq!(
        parse_date("2024/02/29 00:00"),
        Some(Timestamp { year: 2024, month: 2, day: 29, hour: 0, minute: 0 })
    );
}

#[test]
fn test_csv_bytes_roundtrip() {
    let input = b"Updated Time,Production Power(W),Consumption Power(W),Grid Power(W),Battery Power(W),SoC(%)\n\
2023/05/24 01:35,123,456,-789,1011,12\n\
2023/05/24 01:40,100.5,,25,-50,13\n";
    let records = parse_csv_bytes(input).unwrap();
    assert_eq!(records.len(), 2);
    assert_eq!(records[0].production, 123);
    assert_eq!(records[0].grid, -789);
    // Decimals round to the nearest and an empty cell decodes as zero.
    assert_eq!(records[1].production, 101);
    assert_eq!(records[1].consumption, 0);
    assert_eq!(records[1].grid, 25);
    assert_eq!(records[1].battery, -50);
    assert_eq!(records[1].time.minute, 40);
}

#[test]
fn test_columns_found_by_name_in_any_order() {
    let input = b"SoC(%),Grid Power(W),Updated Time,Production Power(W),Consumption Power(W),Battery Power(W),Extra\n\
12,-789,2023/05/24 01:35,123,456,1011,ignored\n";
    let records = parse_csv_bytes(input).unwrap();
    assert_eq!(records.len(), 1);
    assert_eq!(records[0].production, 123);
    assert_eq!(records[0].soc, 12);
}

#[test]
fn test_malformed_rows_are_fatal() {
    // An unparsable numeric cell.
    let bad_value = b"Updated Time,Production Power(W),Consumption Power(W),Grid Power(W),Battery Power(W),SoC(%)\n\
2023/05/24 01:35,abc,456,-789,1011,12\n";
    assert_eq!(parse_csv_bytes(bad_value), Err(SolarError::MalformedRow));
    // A value too large for its unsigned field.
    let overflow = b"Updated Time,Production Power(W),Consumption Power(W),Grid Power(W),Battery Power(W),SoC(%)\n\
2023/05/24 01:35,4294967296,456,-789,1011,12\n";
    assert_eq!(parse_csv_bytes(overflow), Err(SolarError::MalformedRow));
    // A missing required column.
    let missing = b"Updated Time,Production Power(W)\n2023/05/24 01:35,123\n";
    assert_eq!(parse_csv_bytes(missing), Err(SolarError::MalformedRow));
    // A negative value in an unsigned field.
    let negative = b"Updated Time,Production Power(W),Consumption Power(W),Grid Power(W),Battery Power(W),SoC(%)\n\
2023/05/24 01:35,-1,456,-789,1011,12\n";
    assert_eq!(parse_csv_bytes(negative), Err(SolarError::MalformedRow));
    // A framing failure: rows of unequal length.
    let ragged = b"Updated Time,Production Power(W)\n2023/05/24 01:35\n";
    assert_eq!(parse_csv_bytes(ragged), Err(SolarError::MalformedRow));
}

#[test]
fn test_folder_scan_combines_csv_and_sheet() {
    let csv_bytes = b"Updated Time,Production Power(W),Consumption Power(W),Grid Power(W),Battery Power(W),SoC(%)\n\
2023/05/24 01:35,123,456,-789,1011,12\n2023/05/24 01:40,124,457,-788,1010,13\n".to_vec();
    let sheet = vec![
        header(),
        vec![
            text("2023/05/24 01:35"),
            Cell::Number(123),
            Cell::Number(456),
            Cell::Number(-789),
            Cell::Number(1011),
            Cell::Number(12),
        ],
        vec![
            text("2023/05/24 01:40"),
            Cell::Number(124),
            Cell::Number(457),
            Cell::Number(-788),
            Cell::Number(1010),
            Cell::Number(13),
        ],
    ];
    let sources = vec![
        Source { name: String::from("day.csv"), content: SourceContent::CsvBytes(csv_bytes) },
        Source { name: String::from("day.xlsx"), content: SourceContent::Sheet(sheet) },
    ];
    let records = ingest_sources(&sources).unwrap();
    // The combined list is the sum of each file's rows, in order.
    assert_eq!(records.len(), 4);
    assert_eq!(records[0], records[2]);
    assert_eq!(records[1], records[3]);
    // A non-spreadsheet file is classified out before loading.
    assert_eq!(spreadsheet_kind("notes.txt"), FileKind::Other);
    assert_eq!(spreadsheet_kind("day.csv"), FileKind::Csv);
    assert_eq!(spreadsheet_kind("day.xlsx"), FileKind::Sheet);
    assert_eq!(spreadsheet_kind("old.xls"), FileKind::Sheet);
    assert_eq!(spreadsheet_kind(".csv"), FileKind::Other);
    assert_eq!(spreadsheet_kind("csv"), FileKind::Other);
}

#[test]
fn test_error_messages() {
    assert_eq!(SolarError::MalformedRow.message(), "malformed row");
    assert_eq!(SolarError::SheetNotFound.message(), "sheet not found");
    assert_eq!(SolarError::FolderNotFoundOrUnreadable.message(), "folder not found or unreadable");
    assert_eq!(SolarError::UnsupportedFileExtension.message(), "unsupported file extension");
    assert_eq!(SolarError::OutputWriteFailure.message(), "output write failure");
}

#[test]
fn test_read_csv_invalid_file() {
    let result = csv::Reader::from_path("/path/to/invalid/file.csv");
    assert!(result.is_err());
}

#[test]
fn test_read_excel_invalid_file() {
    let result = calamine::open_workbook_auto("/path/to/invalid/file.xlsx");
    assert!(result.is_err());
}
