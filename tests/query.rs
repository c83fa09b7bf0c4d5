use wmi::enumerator::{query_to_wide, NextResponse, QueryResultEnumerator, RawQuery};
use wmi::error::WMIError;
use wmi::object::IWbemClassWrapper;
use wmi::query::{build_query, render_number, Field, FieldKind, FilterValue, Schema};
use wmi::variant::{decode_value, encode_value, RawValue, Variant};

const WBEM_E_INVALID_QUERY: i32 = 0x80041017u32 as i32;

fn schema(name: &str, fields: &[&str]) -> Schema {
    Schema {
        name: name.to_string(),
        fields: fields
            .iter()
            .map(|f| Field { name: f.to_string(), kind: FieldKind::Text, nullable: false })
            .collect(),
    }
}

fn text_object(props: &[(&str, &str)]) -> IWbemClassWrapper {
    IWbemClassWrapper::new(
        props
            .iter()
            .map(|(n, v)| (n.to_string(), RawValue::BStr(v.to_string())))
            .collect(),
    )
}

fn run(schema: Option<Schema>, responses: Vec<NextResponse>) -> Result<Vec<Vec<(String, Variant)>>, WMIError> {
    let enumerator = QueryResultEnumerator::from_exec_status(0).unwrap();
    let mut run = RawQuery::new(enumerator, schema);
    for resp in responses {
        if !run.wants_next() {
            break;
        }
        run.feed(resp);
    }
    run.enumerator.close();
    run.finish()
}

#[test]
fn it_builds_correct_query_without_filters() {
    let query = build_query(&schema("Win32_OperatingSystem", &["Caption"]), None);
    let select_part = r#"SELECT Caption FROM Win32_OperatingSystem "#.to_owned();

    assert_eq!(query, select_part);
}

#[test]
fn it_builds_correct_query() {
    let filters = vec![
        ("C1".to_string(), FilterValue::Str("a")),
        ("C2".to_string(), FilterValue::String("b".to_string())),
        ("C3".to_string(), FilterValue::Number(42)),
        ("C4".to_string(), FilterValue::Bool(false)),
    ];

    let query = build_query(&schema("Win32_OperatingSystem", &["Caption"]), Some(&filters));
    let select_part = r#"SELECT Caption FROM Win32_OperatingSystem "#.to_owned();
    let where_part = r#"WHERE C1 = "a" AND C2 = "b" AND C3 = 42 AND C4 = false"#;

    assert_eq!(query, select_part + where_part);
}

#[test]
fn filter_order_does_not_change_query() {
    let s = schema("Win32_Process", &["Name", "ProcessId"]);
    let a = vec![
        ("Name".to_string(), FilterValue::Str("x")),
        ("ProcessId".to_string(), FilterValue::Number(-7)),
        ("Critical".to_string(), FilterValue::Bool(true)),
    ];
    let b = vec![
        ("Critical".to_string(), FilterValue::Bool(true)),
        ("ProcessId".to_string(), FilterValue::Number(-7)),
        ("Name".to_string(), FilterValue::Str("x")),
    ];
    let qa = build_query(&s, Some(&a));
    assert_eq!(qa, build_query(&s, Some(&b)));
    assert_eq!(
        qa,
        "SELECT Name,ProcessId FROM Win32_Process WHERE Critical = true AND Name = \"x\" AND ProcessId = -7"
    );
}

#[test]
fn empty_filters_emit_no_where() {
    let s = schema("Win32_Share", &["Name", "Path"]);
    let q = build_query(&s, Some(&vec![]));
    assert_eq!(q, "SELECT Name,Path FROM Win32_Share ");
    assert!(!q.contains("WHERE"));
    assert_eq!(q, build_query(&s, None));
}

#[test]
fn text_literals_are_not_escaped() {
    let s = schema("T", &["A"]);
    let f = vec![("A".to_string(), FilterValue::String("x\"y".to_string()))];
    assert_eq!(build_query(&s, Some(&f)), "SELECT A FROM T WHERE A = \"x\"y\"");
}

#[test]
fn numbers_render_in_decimal() {
    assert_eq!(render_number(0), "0");
    assert_eq!(render_number(42), "42");
    assert_eq!(render_number(-1005), "-1005");
    assert_eq!(render_number(i64::MAX), "9223372036854775807");
    assert_eq!(render_number(i64::MIN), "-9223372036854775808");
}

#[test]
fn it_fails_gracefully_with_invalid_sql() {
    // The provider accepts the text "42" for execution and then fails the
    // first request for a result with its invalid-query status.
    let mut enumerator = QueryResultEnumerator::from_exec_status(0).unwrap();
    let mut items = vec![];
    let mut responses = vec![NextResponse::Failed(WBEM_E_INVALID_QUERY), NextResponse::Done].into_iter();
    while enumerator.is_active() {
        if let Some(item) = enumerator.next(responses.next().unwrap()) {
            items.push(item);
        }
    }
    assert!(enumerator.next(NextResponse::Item(text_object(&[]))).is_none());
    assert_eq!(items.len(), 1);
    for res in items {
        match res {
            Ok(_) => assert!(false),
            Err(e) => match e {
                WMIError::EnumerationError { hres } => {
                    assert_eq!(hres, WBEM_E_INVALID_QUERY);
                }
                _ => assert!(false),
            },
        }
    }
}

#[test]
fn failed_execution_is_an_hresult_error() {
    let r = QueryResultEnumerator::from_exec_status(WBEM_E_INVALID_QUERY);
    assert!(matches!(r, Err(WMIError::HResultError { hres }) if hres == WBEM_E_INVALID_QUERY));
}

#[test]
fn it_fails_gracefully() {
    let results = run(None, vec![NextResponse::Failed(WBEM_E_INVALID_QUERY)]);
    assert!(results.is_err());
}

#[test]
fn exhausted_enumerator_yields_nothing_more() {
    let mut enumerator = QueryResultEnumerator::from_exec_status(0).unwrap();
    let first = enumerator.next(NextResponse::Item(text_object(&[("Name", "a")])));
    assert!(matches!(first, Some(Ok(_))));
    assert!(enumerator.next(NextResponse::Done).is_none());
    assert!(!enumerator.is_active());
    assert!(enumerator.next(NextResponse::Item(text_object(&[("Name", "b")]))).is_none());
    assert!(enumerator.next(NextResponse::Failed(-1)).is_none());
    assert!(!enumerator.close());
}

#[test]
fn closing_an_active_enumerator_releases_once() {
    let mut enumerator = QueryResultEnumerator::from_exec_status(0).unwrap();
    assert!(enumerator.close());
    assert!(!enumerator.close());
}

#[test]
fn it_can_query_a_struct() {
    let os = text_object(&[("Caption", "Microsoft Windows 10 Pro"), ("Version", "10.0")]);
    let results = run(
        Some(schema("Win32_OperatingSystem", &["Caption"])),
        vec![NextResponse::Item(os), NextResponse::Done],
    )
    .unwrap();

    assert_eq!(results.len(), 1);
    for os in results {
        assert_eq!(os, vec![("Caption".to_string(), Variant::String("Microsoft Windows 10 Pro".to_string()))]);
    }
}

#[test]
fn it_fails_gracefully_when_querying_a_struct() {
    let os = text_object(&[("Caption", "Microsoft Windows 10 Pro")]);
    let result = run(
        Some(schema("Win32_OperatingSystem", &["NoSuchField"])),
        vec![NextResponse::Item(os), NextResponse::Done],
    );

    assert!(result.is_err());
    assert_eq!(result.unwrap_err(), WMIError::MissingProperty { name: "NoSuchField".to_string() });
}

#[test]
fn one_bad_item_fails_the_batch() {
    let good = text_object(&[("Name", "a")]);
    let bad = text_object(&[("Other", "b")]);
    let later = text_object(&[("Name", "c")]);
    let result = run(
        Some(schema("Win32_Process", &["Name"])),
        vec![NextResponse::Item(good), NextResponse::Item(bad), NextResponse::Item(later), NextResponse::Done],
    );
    assert_eq!(result, Err(WMIError::MissingProperty { name: "Name".to_string() }));
}

#[test]
fn it_can_filter() {
    let mut filters = vec![];
    filters.push(("Name".to_owned(), FilterValue::Str("cargo.exe")));
    let query = build_query(&schema("Win32_Process", &["Name"]), Some(&filters));
    assert_eq!(query, "SELECT Name FROM Win32_Process WHERE Name = \"cargo.exe\"");

    let results = run(
        Some(schema("Win32_Process", &["Name"])),
        vec![NextResponse::Item(text_object(&[("Name", "cargo.exe")])), NextResponse::Done],
    )
    .unwrap();

    assert!(results.len() >= 1);
    for proc in results {
        assert_eq!(proc[0].1, Variant::String("cargo.exe".to_string()));
    }
}

#[test]
fn generic_mapping_keeps_every_property() {
    let obj = IWbemClassWrapper::new(vec![
        ("Caption".to_string(), RawValue::BStr("disk".to_string())),
        ("Size".to_string(), RawValue::UI4(4096)),
        ("Removable".to_string(), RawValue::Bool(false)),
        ("Tags".to_string(), RawValue::Array(vec![RawValue::I2(-3), RawValue::I1(2)])),
        ("Installed".to_string(), RawValue::DateTime("20190113200517.500000+000".to_string())),
        ("Description".to_string(), RawValue::Null),
    ]);
    let results = run(None, vec![NextResponse::Item(obj), NextResponse::Done]).unwrap();
    assert_eq!(
        results[0],
        vec![
            ("Caption".to_string(), Variant::String("disk".to_string())),
            ("Size".to_string(), Variant::I8(4096)),
            ("Removable".to_string(), Variant::Bool(false)),
            ("Tags".to_string(), Variant::Array(vec![Variant::I8(-3), Variant::I8(2)])),
            ("Installed".to_string(), Variant::Timestamp("20190113200517.500000+000".to_string())),
            ("Description".to_string(), Variant::Null),
        ]
    );
}

#[test]
fn generic_mapping_fails_on_float() {
    let obj = IWbemClassWrapper::new(vec![("Load".to_string(), RawValue::Real)]);
    assert_eq!(obj.to_map(), Err(WMIError::UnsupportedValue));
}

#[test]
fn list_properties_keeps_provider_order() {
    let obj = text_object(&[("Version", "1"), ("BootDevice", "2"), ("BuildNumber", "3")]);
    let mut props = obj.list_properties();
    assert_eq!(props, vec!["Version", "BootDevice", "BuildNumber"]);
    props.sort();
    assert_eq!(props[..2], ["BootDevice", "BuildNumber"]);
}

#[test]
fn get_property_finds_or_reports_missing() {
    let obj = IWbemClassWrapper::new(vec![("Count".to_string(), RawValue::UI1(7))]);
    assert_eq!(obj.get_property("Count"), Ok(Variant::I8(7)));
    assert_eq!(obj.get_property("count"), Err(WMIError::MissingProperty { name: "count".to_string() }));
}

#[test]
fn record_field_type_mismatch() {
    let obj = IWbemClassWrapper::new(vec![
        ("Tags".to_string(), RawValue::Array(vec![RawValue::BStr("a".to_string())])),
        ("Note".to_string(), RawValue::Null),
    ]);
    let scalar = Schema {
        name: "T".to_string(),
        fields: vec![Field { name: "Tags".to_string(), kind: FieldKind::Text, nullable: false }],
    };
    assert_eq!(obj.to_record(&scalar), Err(WMIError::IncompatibleValue { name: "Tags".to_string() }));
    let nullable = Schema {
        name: "T".to_string(),
        fields: vec![
            Field { name: "Note".to_string(), kind: FieldKind::Text, nullable: true },
            Field { name: "Tags".to_string(), kind: FieldKind::Array, nullable: false },
        ],
    };
    assert_eq!(
        obj.to_record(&nullable),
        Ok(vec![
            ("Note".to_string(), Variant::Null),
            ("Tags".to_string(), Variant::Array(vec![Variant::String("a".to_string())])),
        ])
    );
}

#[test]
fn decode_widens_integers_and_refuses_the_rest() {
    assert_eq!(decode_value(&RawValue::UI8(u64::MAX)), Err(WMIError::UnsupportedValue));
    assert_eq!(decode_value(&RawValue::UI8(5)), Ok(Variant::I8(5)));
    assert_eq!(decode_value(&RawValue::I4(-9)), Ok(Variant::I8(-9)));
    assert_eq!(decode_value(&RawValue::Other(13)), Err(WMIError::UnsupportedValue));
    assert_eq!(decode_value(&RawValue::Array(vec![RawValue::Array(vec![])])), Err(WMIError::UnsupportedValue));
}

#[test]
fn encode_then_decode_round_trips() {
    let values = vec![
        Variant::Empty,
        Variant::Null,
        Variant::Bool(true),
        Variant::I8(i64::MIN),
        Variant::String("Caption".to_string()),
        Variant::Timestamp("20200101000000.000000+060".to_string()),
        Variant::Array(vec![Variant::I8(1), Variant::String("x".to_string()), Variant::Null]),
    ];
    for v in values {
        let raw = encode_value(&v);
        assert_eq!(decode_value(&raw), Ok(v));
    }
}

#[test]
fn query_text_with_nul_is_malformed() {
    assert_eq!(query_to_wide("SELECT\0 Name"), Err(WMIError::NulInQuery));
    let wide = query_to_wide("WQL").unwrap();
    assert_eq!(wide, vec![87u16, 81, 76, 0]);
    assert_eq!(query_to_wide("é").unwrap(), vec![0xe9u16, 0]);
}

#[test]
fn it_works() {
    let mut names = vec!["Version".to_string(), "BootDevice".to_string(), "WindowsDirectory".to_string()];
    for i in 0..60 {
        names.push(format!("Property{:02}", i));
    }
    names.push("BuildNumber".to_string());
    let os = IWbemClassWrapper::new(names.into_iter().map(|n| (n, RawValue::Null)).collect());
    let wide = query_to_wide("SELECT * FROM Win32_OperatingSystem").unwrap();
    assert_eq!(wide.len(), "SELECT * FROM Win32_OperatingSystem".len() + 1);

    let mut enumerator = QueryResultEnumerator::from_exec_status(0).unwrap();
    let mut responses = vec![NextResponse::Item(os), NextResponse::Done].into_iter();
    while let Some(res) = enumerator.next(responses.next().unwrap()) {
        let w = res.unwrap();
        let mut props = w.list_properties();

        props.sort();

        assert_eq!(props.len(), 64);
        assert_eq!(props[..2], ["BootDevice", "BuildNumber"]);
        assert_eq!(props[props.len() - 2..], ["Version", "WindowsDirectory"])
    }
}

#[test]
fn it_can_query_all_classes() {
    let classes = [
        "Win32_Service",
        "Win32_Process",
        "Win32_OperatingSystem",
        "Win32_TimeZone",
        "Win32_ComputerSystem",
        "Win32_NetworkAdapter",
        "Win32_NetworkAdapterConfiguration",
        "Win32_LogicalDisk",
        "Win32_PhysicalMemory",
        "Win32_StartupCommand",
        "Win32_NetworkLoginProfile",
        "Win32_Share",
        "Win32_MappedLogicalDisk",
        "Win32_DiskDrive",
        "Win32_Product",
        "Win32_IP4RouteTable",
        "Win32_NetworkConnection",
        "Win32_Group",
    ];

    for class_name in classes.iter() {
        assert!(query_to_wide(&format!("SELECT * FROM {}", class_name)).is_ok());
        let obj = text_object(&[("Caption", class_name), ("Name", "x")]);
        let results = run(None, vec![NextResponse::Item(obj), NextResponse::Done]).unwrap();

        for res in results {
            match res.iter().find(|(k, _)| k == "Caption") {
                Some((_, Variant::String(s))) => assert!(s != ""),
                _ => assert!(false),
            }
        }
    }

    let associators_classes = ["Win32_DiskDriveToDiskPartition", "Win32_LogicalDiskToPartition"];

    for class_name in associators_classes.iter() {
        assert!(query_to_wide(&format!("SELECT * FROM {}", class_name)).is_ok());
        let obj = text_object(&[("Antecedent", "\\\\HOST\\root\\cimv2:Win32_DiskDrive.DeviceID=\"0\"")]);
        let results = run(None, vec![NextResponse::Item(obj), NextResponse::Done]).unwrap();

        for res in results {
            match res.iter().find(|(k, _)| k == "Antecedent") {
                Some((_, Variant::String(s))) => assert!(s != ""),
                _ => assert!(false),
            }
        }
    }

    let obj = text_object(&[("GroupComponent", "Administrators"), ("PartComponent", "Admin")]);
    let results = run(None, vec![NextResponse::Item(obj), NextResponse::Done]).unwrap();

    for res in results {
        match res.iter().find(|(k, _)| k == "GroupComponent") {
            Some((_, Variant::String(s))) => assert!(s != ""),
            _ => assert!(false),
        }

        match res.iter().find(|(k, _)| k == "PartComponent") {
            Some((_, Variant::String(s))) => assert!(s != ""),
            _ => assert!(false),
        }
    }
}
