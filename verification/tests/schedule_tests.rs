use arexibo::schedule::{is_time_in_range, DayPart, Schedule, ScheduleError};
use arexibo::xml::{parse_xml, FieldError, XmlNode};

fn create_test_schedule_xml(xml_content: &str) -> XmlNode {
    parse_xml(xml_content.as_bytes()).unwrap()
}

#[test]
fn test_campaign_priority_beats_standalone() {
    // Campaign with priority 10 should beat standalone layout with priority 5
    let xml = r#"
        <schedule>
            <default file="0" />
            <layout file="100" priority="5" fromdt="2024-01-01 00:00:00" todt="2030-12-31 23:59:59" />
            <campaign id="1" priority="10" fromdt="2024-01-01 00:00:00" todt="2030-12-31 23:59:59">
                <layout file="200" />
                <layout file="201" />
                <layout file="202" />
            </campaign>
        </schedule>
    "#;

    let tree = create_test_schedule_xml(xml);
    let schedule = Schedule::parse(tree).unwrap();
    let layouts = schedule.layouts_now();

    // Should return campaign layouts (priority 10) not standalone (priority 5)
    assert_eq!(layouts.len(), 3);
    assert!(layouts.contains(&200));
    assert!(layouts.contains(&201));
    assert!(layouts.contains(&202));
}

#[test]
fn test_multiple_campaigns_same_priority() {
    // Multiple campaigns at same priority - all layouts should be included
    let xml = r#"
        <schedule>
            <default file="0" />
            <campaign id="1" priority="10" fromdt="2024-01-01 00:00:00" todt="2030-12-31 23:59:59">
                <layout file="100" />
                <layout file="101" />
            </campaign>
            <campaign id="2" priority="10" fromdt="2024-01-01 00:00:00" todt="2030-12-31 23:59:59">
                <layout file="200" />
                <layout file="201" />
            </campaign>
        </schedule>
    "#;

    let tree = create_test_schedule_xml(xml);
    let schedule = Schedule::parse(tree).unwrap();
    let layouts = schedule.layouts_now();

    // Both campaigns at priority 10, so all 4 layouts should be included
    assert_eq!(layouts.len(), 4);
    assert!(layouts.contains(&100));
    assert!(layouts.contains(&101));
    assert!(layouts.contains(&200));
    assert!(layouts.contains(&201));
}

#[test]
fn test_campaign_out_of_time_window() {
    // Campaign outside time window should not be active
    let xml = r#"
        <schedule>
            <default file="0" />
            <layout file="100" priority="5" fromdt="2024-01-01 00:00:00" todt="2030-12-31 23:59:59" />
            <campaign id="1" priority="10" fromdt="2020-01-01 00:00:00" todt="2020-12-31 23:59:59">
                <layout file="200" />
                <layout file="201" />
            </campaign>
        </schedule>
    "#;

    let tree = create_test_schedule_xml(xml);
    let schedule = Schedule::parse(tree).unwrap();
    let layouts = schedule.layouts_now();

    // Campaign is expired, so standalone layout should win
    assert_eq!(layouts.len(), 1);
    assert_eq!(layouts[0], 100);
}

#[test]
fn test_mixed_campaigns_and_standalone_same_priority() {
    // Mix of campaigns and standalone layouts at same priority
    let xml = r#"
        <schedule>
            <default file="0" />
            <layout file="100" priority="10" fromdt="2024-01-01 00:00:00" todt="2030-12-31 23:59:59" />
            <layout file="101" priority="10" fromdt="2024-01-01 00:00:00" todt="2030-12-31 23:59:59" />
            <campaign id="1" priority="10" fromdt="2024-01-01 00:00:00" todt="2030-12-31 23:59:59">
                <layout file="200" />
                <layout file="201" />
            </campaign>
        </schedule>
    "#;

    let tree = create_test_schedule_xml(xml);
    let schedule = Schedule::parse(tree).unwrap();
    let layouts = schedule.layouts_now();

    // All at priority 10, so all should be included
    assert_eq!(layouts.len(), 4);
    assert!(layouts.contains(&100));
    assert!(layouts.contains(&101));
    assert!(layouts.contains(&200));
    assert!(layouts.contains(&201));
}

#[test]
fn test_no_active_schedules_returns_default() {
    // No active schedules should return default
    let xml = r#"
        <schedule>
            <default file="999" />
            <campaign id="1" priority="10" fromdt="2020-01-01 00:00:00" todt="2020-12-31 23:59:59">
                <layout file="200" />
            </campaign>
        </schedule>
    "#;

    let tree = create_test_schedule_xml(xml);
    let schedule = Schedule::parse(tree).unwrap();
    let layouts = schedule.layouts_now();

    // Should return default layout
    assert_eq!(layouts.len(), 1);
    assert_eq!(layouts[0], 999);
}

#[test]
fn test_campaign_layout_order_preserved() {
    // Campaign layouts should maintain their order
    let xml = r#"
        <schedule>
            <default file="0" />
            <campaign id="1" priority="10" fromdt="2024-01-01 00:00:00" todt="2030-12-31 23:59:59">
                <layout file="205" />
                <layout file="203" />
                <layout file="204" />
                <layout file="201" />
                <layout file="202" />
            </campaign>
        </schedule>
    "#;

    let tree = create_test_schedule_xml(xml);
    let schedule = Schedule::parse(tree).unwrap();
    let layouts = schedule.layouts_now();

    // Campaign layouts should be in order
    assert_eq!(layouts.len(), 5);
    assert_eq!(layouts[0], 205);
    assert_eq!(layouts[1], 203);
    assert_eq!(layouts[2], 204);
    assert_eq!(layouts[3], 201);
    assert_eq!(layouts[4], 202);
}

#[test]
fn test_backward_compatibility_no_campaigns() {
    // Old-style schedule without campaigns should still work
    let xml = r#"
        <schedule>
            <default file="0" />
            <layout file="100" priority="5" fromdt="2024-01-01 00:00:00" todt="2030-12-31 23:59:59" />
            <layout file="101" priority="10" fromdt="2024-01-01 00:00:00" todt="2030-12-31 23:59:59" />
            <layout file="102" priority="10" fromdt="2024-01-01 00:00:00" todt="2030-12-31 23:59:59" />
        </schedule>
    "#;

    let tree = create_test_schedule_xml(xml);
    let schedule = Schedule::parse(tree).unwrap();
    let layouts = schedule.layouts_now();

    // Highest priority layouts should be returned
    assert_eq!(layouts.len(), 2);
    assert!(layouts.contains(&101));
    assert!(layouts.contains(&102));
}

#[test]
fn test_empty_campaign_ignored() {
    // Campaign with no layouts should be ignored
    let xml = r#"
        <schedule>
            <default file="0" />
            <layout file="100" priority="5" fromdt="2024-01-01 00:00:00" todt="2030-12-31 23:59:59" />
            <campaign id="1" priority="10" fromdt="2024-01-01 00:00:00" todt="2030-12-31 23:59:59">
            </campaign>
        </schedule>
    "#;

    let tree = create_test_schedule_xml(xml);
    let schedule = Schedule::parse(tree).unwrap();
    let layouts = schedule.layouts_now();

    // Empty campaign should be ignored, standalone layout wins
    assert_eq!(layouts.len(), 1);
    assert_eq!(layouts[0], 100);
}

// Instants used below, read in UTC: 2024-01-01 00:00:00 and 2024-06-01 12:00:00.
const JAN_2024: i128 = 1_704_067_200_000_000_000;
const JUN_2024: i128 = 1_717_243_200_000_000_000;

fn utc_schedule(xml: &str) -> Schedule {
    Schedule::parse_with_offset(&create_test_schedule_xml(xml), 0).unwrap()
}

#[test]
fn times_are_read_in_the_given_offset() {
    let s = utc_schedule(
        r#"<schedule><layout file="7" priority="1" fromdt="2024-01-01 00:00:00" todt="2024-06-01 12:00:00" /></schedule>"#,
    );
    // Both ends of the window are included, down to the nanosecond.
    assert_eq!(s.layouts_at(JAN_2024), vec![7]);
    assert_eq!(s.layouts_at(JUN_2024), vec![7]);
    assert_eq!(s.layouts_at(JAN_2024 - 1), Vec::<i64>::new());
    assert_eq!(s.layouts_at(JUN_2024 + 1), Vec::<i64>::new());
    // Read two hours east of UTC, the window starts two hours earlier.
    let east = Schedule::parse_with_offset(
        &create_test_schedule_xml(
            r#"<schedule><layout file="7" priority="1" fromdt="2024-01-01 00:00:00" todt="2024-06-01 12:00:00" /></schedule>"#,
        ),
        7200,
    )
    .unwrap();
    assert_eq!(east.layouts_at(JAN_2024 - 7_200_000_000_000), vec![7]);
    assert_eq!(east.layouts_at(JUN_2024), Vec::<i64>::new());
}

#[test]
fn idle_schedule_without_default_plays_nothing() {
    let s = utc_schedule(
        r#"<schedule><layout file="7" priority="1" fromdt="2030-01-01 00:00:00" todt="2030-06-01 12:00:00" /></schedule>"#,
    );
    assert_eq!(s.layouts_at(JUN_2024), Vec::<i64>::new());
}

#[test]
fn lower_priority_active_item_plays_nothing() {
    let s = utc_schedule(
        r#"<schedule>
            <default file="1" />
            <layout file="5" priority="3" fromdt="2023-01-01 00:00:00" todt="2025-01-01 00:00:00" />
            <campaign id="4" priority="2" fromdt="2023-01-01 00:00:00" todt="2025-01-01 00:00:00">
                <layout file="8" /><layout file="9" />
            </campaign>
            <layout file="6" priority="3" fromdt="2023-01-01 00:00:00" todt="2025-01-01 00:00:00" />
        </schedule>"#,
    );
    // Campaigns come first, then standalone layouts, each in document order.
    assert_eq!(s.layouts_at(JUN_2024), vec![5, 6]);
}

#[test]
fn negative_priorities_compare_as_numbers() {
    let s = utc_schedule(
        r#"<schedule>
            <layout file="5" priority="-3" fromdt="2023-01-01 00:00:00" todt="2025-01-01 00:00:00" />
            <layout file="6" priority="-1" fromdt="2023-01-01 00:00:00" todt="2025-01-01 00:00:00" />
        </schedule>"#,
    );
    assert_eq!(s.layouts_at(JUN_2024), vec![6]);
}

#[test]
fn layouts_inside_campaigns_are_not_standalone() {
    let s = utc_schedule(
        r#"<schedule>
            <campaign id="4" priority="2" fromdt="2023-01-01 00:00:00" todt="2025-01-01 00:00:00">
                <layout file="8" priority="9" fromdt="2023-01-01 00:00:00" todt="2025-01-01 00:00:00" />
            </campaign>
        </schedule>"#,
    );
    assert_eq!(s.items.len(), 1);
    assert_eq!(s.layouts_at(JUN_2024), vec![8]);
}

#[test]
fn parse_reads_default_and_items() {
    let s = utc_schedule(
        r#"<schedule>
            <default file="42" />
            <campaign id="3" priority="1" fromdt="2024-01-01 00:00:00" todt="2024-06-01 12:00:00"><layout file="8" /></campaign>
        </schedule>"#,
    );
    assert_eq!(s.default, Some(42));
    assert_eq!(s.items.len(), 1);
    assert!(s.dayparts.is_empty());
    match &s.items[0] {
        arexibo::schedule::ScheduleItem::Campaign(c) => {
            assert_eq!(c.id, 3);
            assert_eq!(c.priority, 1);
            assert_eq!(c.from, JAN_2024);
            assert_eq!(c.to, JUN_2024);
            assert_eq!(c.layouts, vec![8]);
        }
        _ => panic!("expected a campaign"),
    }
}

fn parse_error(xml: &str) -> ScheduleError {
    match Schedule::parse_with_offset(&create_test_schedule_xml(xml), 0) {
        Ok(_) => panic!("expected an error"),
        Err(e) => e,
    }
}

#[test]
fn parse_errors_name_the_fault() {
    assert!(matches!(
        parse_error(r#"<schedule><campaign priority="1" fromdt="2024-01-01 00:00:00" todt="2024-01-02 00:00:00"/></schedule>"#),
        ScheduleError::Field(FieldError::MissingAttribute("id"))
    ));
    assert!(matches!(
        parse_error(r#"<schedule><campaign id="x" priority="1" fromdt="2024-01-01 00:00:00" todt="2024-01-02 00:00:00"/></schedule>"#),
        ScheduleError::Field(FieldError::InvalidAttribute("id"))
    ));
    assert!(matches!(
        parse_error(r#"<schedule><campaign id="1" priority="99999999999" fromdt="2024-01-01 00:00:00" todt="2024-01-02 00:00:00"/></schedule>"#),
        ScheduleError::Field(FieldError::InvalidAttribute("priority"))
    ));
    assert!(matches!(
        parse_error(r#"<schedule><campaign id="1" priority="1" todt="2024-01-02 00:00:00"/></schedule>"#),
        ScheduleError::MissingCampaignFrom
    ));
    assert!(matches!(
        parse_error(r#"<schedule><campaign id="1" priority="1" fromdt="2024-01-01 00:00:00"/></schedule>"#),
        ScheduleError::MissingCampaignTo
    ));
    assert!(matches!(
        parse_error(r#"<schedule><campaign id="1" priority="1" fromdt="2024-13-01 00:00:00" todt="2024-01-02 00:00:00"/></schedule>"#),
        ScheduleError::InvalidCampaignFrom
    ));
    assert!(matches!(
        parse_error(r#"<schedule><campaign id="1" priority="1" fromdt="2024-01-01 00:00:00" todt="2024-01-02"/></schedule>"#),
        ScheduleError::InvalidCampaignTo
    ));
    assert!(matches!(
        parse_error(r#"<schedule><campaign id="1" priority="1" fromdt="2024-01-01 00:00:00" todt="2024-01-02 00:00:00"><layout/></campaign></schedule>"#),
        ScheduleError::Field(FieldError::MissingAttribute("file"))
    ));
    assert!(matches!(
        parse_error(r#"<schedule><layout file="1" todt="2024-01-02 00:00:00" fromdt="2024-01-01 00:00:00"/></schedule>"#),
        ScheduleError::Field(FieldError::MissingAttribute("priority"))
    ));
    assert!(matches!(
        parse_error(r#"<schedule><layout file="1" priority="2" todt="2024-01-02 00:00:00"/></schedule>"#),
        ScheduleError::MissingLayoutFrom
    ));
    assert!(matches!(
        parse_error(r#"<schedule><layout file="1" priority="2" fromdt="2024-01-01 00:00:00"/></schedule>"#),
        ScheduleError::MissingLayoutTo
    ));
    assert!(matches!(
        parse_error(r#"<schedule><layout file="1" priority="2" fromdt="yesterday" todt="2024-01-02 00:00:00"/></schedule>"#),
        ScheduleError::InvalidLayoutFrom
    ));
    assert!(matches!(
        parse_error(r#"<schedule><layout file="1" priority="2" fromdt="2024-01-01 00:00:00" todt="2024-02-30 00:00:00"/></schedule>"#),
        ScheduleError::InvalidLayoutTo
    ));
    assert!(matches!(
        parse_error(r#"<schedule><default file="+" /></schedule>"#),
        ScheduleError::Field(FieldError::InvalidAttribute("file"))
    ));
}

#[test]
fn first_fault_in_document_order_wins() {
    // Campaigns are read before standalone layouts, whatever their position.
    assert!(matches!(
        parse_error(
            r#"<schedule><layout file="1" priority="2"/><campaign id="1" priority="1" todt="2024-01-02 00:00:00"/></schedule>"#
        ),
        ScheduleError::MissingCampaignFrom
    ));
}

#[test]
fn time_window_within_a_day() {
    assert!(is_time_in_range((9, 0), (9, 0), (17, 0)));
    assert!(is_time_in_range((17, 0), (9, 0), (17, 0)));
    assert!(is_time_in_range((12, 30), (9, 0), (17, 0)));
    assert!(!is_time_in_range((8, 59), (9, 0), (17, 0)));
    assert!(!is_time_in_range((17, 1), (9, 0), (17, 0)));
}

#[test]
fn time_window_across_midnight() {
    assert!(is_time_in_range((23, 0), (22, 0), (2, 0)));
    assert!(is_time_in_range((0, 0), (22, 0), (2, 0)));
    assert!(is_time_in_range((2, 0), (22, 0), (2, 0)));
    assert!(!is_time_in_range((2, 1), (22, 0), (2, 0)));
    assert!(!is_time_in_range((12, 0), (22, 0), (2, 0)));
}

#[test]
fn daypart_checks_weekday_and_time() {
    let d = DayPart {
        layout_id: 12,
        priority: 4,
        days_of_week: vec![1, 3, 5],
        start_time: (22, 0),
        end_time: (2, 0),
    };
    assert!(d.is_active_at(3, 23, 30));
    assert!(!d.is_active_at(2, 23, 30));
    assert!(!d.is_active_at(3, 12, 0));
    assert_eq!(d.priority(), 4);
    assert_eq!(d.layouts(), vec![12]);
}

#[test]
fn schedule_default_is_empty() {
    let s: Schedule = Default::default();
    assert_eq!(s.default, None);
    assert!(s.items.is_empty());
    assert_eq!(s.layouts_at(JUN_2024), Vec::<i64>::new());
}
