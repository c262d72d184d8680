use notion_parallel::gate::AdmissionGate;
use notion_parallel::{
    attach_children, collect_results, expand_level, page_result, page_url, unique_ids,
    FetchError, NotionBlockResponse, NotionParallel, Paginator, Record,
};

fn leaf(id: &str) -> Record {
    Record::new(id.to_string(), false, "paragraph".to_string(), false, serde_json::Value::Null)
}

fn page(parent: &str, n: usize, start: usize, cursor: Option<&str>) -> NotionBlockResponse {
    let results = (0..n).map(|i| leaf(&format!("b{}", start + i))).collect();
    NotionBlockResponse {
        id: parent.to_string(),
        results,
        has_more: Some(cursor.is_some()),
        next_cursor: cursor.map(|c| c.to_string()),
    }
}

#[test]
fn url_without_cursor() {
    assert_eq!(
        page_url("abc", &None),
        "https://api.notion.com/v1/blocks/abc/children?page_size=100"
    );
}

#[test]
fn url_with_cursor() {
    assert_eq!(
        page_url("abc", &Some("c1".to_string())),
        "https://api.notion.com/v1/blocks/abc/children?page_size=100&start_cursor=c1"
    );
}

#[test]
fn three_pages_give_all_records_in_three_requests() {
    let mut p = Paginator::new("P".to_string());
    let pages = vec![
        page("P", 100, 0, Some("c1")),
        page("P", 100, 100, Some("c2")),
        page("P", 40, 200, None),
    ];
    let mut urls = Vec::new();
    for pg in pages {
        let url = p.next_url().expect("pagination still running");
        urls.push(url);
        p.absorb(pg);
    }
    assert!(p.next_url().is_none());
    assert_eq!(p.requests, 3);
    assert_eq!(urls[0], "https://api.notion.com/v1/blocks/P/children?page_size=100");
    assert_eq!(urls[1], "https://api.notion.com/v1/blocks/P/children?page_size=100&start_cursor=c1");
    assert_eq!(urls[2], "https://api.notion.com/v1/blocks/P/children?page_size=100&start_cursor=c2");
    let records = p.into_records();
    assert_eq!(records.len(), 240);
    assert_eq!(records[0].id, "b0");
    assert_eq!(records[239].id, "b239");
}

#[test]
fn missing_cursor_ends_pagination() {
    let mut p = Paginator::new("P".to_string());
    p.absorb(NotionBlockResponse {
        id: "P".to_string(),
        results: vec![leaf("a")],
        has_more: Some(true),
        next_cursor: None,
    });
    assert!(p.finished);
    assert!(p.next_url().is_none());
}

#[test]
fn absent_more_flag_ends_pagination() {
    let mut p = Paginator::new("P".to_string());
    p.absorb(NotionBlockResponse {
        id: "P".to_string(),
        results: vec![],
        has_more: None,
        next_cursor: Some("c".to_string()),
    });
    assert!(p.finished);
    assert_eq!(p.requests, 1);
}

#[test]
fn failed_page_maps_to_empty_and_others_survive() {
    let results = collect_results(vec![
        ("A".to_string(), Ok(vec![leaf("a1"), leaf("a2")])),
        ("X".to_string(), Err(FetchError::Transport)),
        ("B".to_string(), Ok(vec![leaf("b1")])),
    ]);
    assert_eq!(results.len(), 3);
    assert_eq!(results[0].page_id, "A");
    assert_eq!(results[0].blocks.len(), 2);
    assert_eq!(results[1].page_id, "X");
    assert!(results[1].blocks.is_empty());
    assert_eq!(results[2].page_id, "B");
    assert_eq!(results[2].blocks[0].id, "b1");
}

#[test]
fn decode_error_gives_empty_page() {
    let r = page_result("Y".to_string(), Err(FetchError::Decode));
    assert_eq!(r.page_id, "Y");
    assert!(r.blocks.is_empty());
}

#[test]
fn table_rows_mirror_children() {
    let table = Record::new("t".to_string(), true, "table".to_string(), true, serde_json::Value::Null);
    let rows: Vec<Record> = (0..5).map(|i| leaf(&format!("row{}", i))).collect();
    let e = attach_children(table, Ok(rows));
    let children = e.children.as_ref().expect("children attached");
    assert_eq!(children.len(), 5);
    let table_rows = e.rows().expect("rows attached");
    assert_eq!(table_rows.len(), 5);
    for i in 0..5 {
        assert_eq!(children[i].id, format!("row{}", i));
        assert_eq!(table_rows[i].id, children[i].id);
        assert!(children[i].children.is_none());
    }
}

#[test]
fn non_table_gets_children_but_no_rows() {
    let r = Record::new("p".to_string(), true, "toggle".to_string(), false, serde_json::Value::Null);
    let e = attach_children(r, Ok(vec![leaf("c")]));
    assert_eq!(e.children.as_ref().map(|c| c.len()), Some(1));
    assert!(e.rows().is_none());
}

#[test]
fn childless_record_stays_unset() {
    let e = attach_children(leaf("a"), Ok(vec![leaf("x")]));
    assert!(e.children.is_none());
    assert!(e.rows().is_none());
}

#[test]
fn empty_id_is_not_expanded() {
    let r = Record::new(String::new(), true, "toggle".to_string(), false, serde_json::Value::Null);
    assert!(!r.needs_expansion());
    let e = attach_children(r, Ok(vec![leaf("x")]));
    assert!(e.children.is_none());
}

#[test]
fn failed_child_keeps_slot_unset_and_siblings_expand() {
    let a = Record::new("a".to_string(), true, "toggle".to_string(), false, serde_json::Value::Null);
    let b = Record::new("b".to_string(), true, "toggle".to_string(), false, serde_json::Value::Null);
    let c = leaf("c");
    let e = expand_level(
        vec![a, b, c],
        vec![Err(FetchError::Transport), Ok(vec![leaf("b1"), leaf("b2")]), Ok(vec![])],
    );
    assert_eq!(e.len(), 3);
    assert!(e[0].children.is_none());
    assert_eq!(e[1].children.as_ref().map(|c| c.len()), Some(2));
    assert!(e[2].children.is_none());
    assert_eq!(e[2].id, "c");
}

#[test]
fn repeated_ids_collapse() {
    let ids = vec!["a".to_string(), "b".to_string(), "a".to_string(), "c".to_string(), "b".to_string()];
    let u = unique_ids(&ids);
    assert_eq!(u, vec!["a".to_string(), "b".to_string(), "c".to_string()]);
    assert!(unique_ids(&Vec::new()).is_empty());
}

#[test]
fn gate_limit_two_over_ten_single_requests() {
    let mut gate = AdmissionGate::new(2).expect("positive limit");
    let mut pending: Vec<usize> = (0..10).collect();
    let mut running: Vec<usize> = Vec::new();
    let mut peak = 0;
    let mut total = 0;
    while !pending.is_empty() || !running.is_empty() {
        while !pending.is_empty() && gate.try_acquire() {
            running.push(pending.remove(0));
            total += 1;
            peak = peak.max(gate.in_flight());
        }
        running.remove(0);
        gate.release();
    }
    assert_eq!(peak, 2);
    assert_eq!(total, 10);
    assert_eq!(gate.in_flight(), 0);
}

#[test]
fn gate_refuses_when_full() {
    let mut gate = AdmissionGate::new(1).expect("positive limit");
    assert!(gate.try_acquire());
    assert!(!gate.try_acquire());
    gate.release();
    assert!(gate.try_acquire());
    assert_eq!(gate.limit(), 1);
}

#[test]
fn zero_limit_is_refused() {
    assert!(AdmissionGate::new(0).is_none());
    let np = NotionParallel::new("k".to_string(), Some(0));
    assert!(np.gate().is_none());
}

#[test]
fn engine_defaults_and_setter() {
    let mut np = NotionParallel::new("SECRET-REDACTED".to_string(), None);
    assert_eq!(np.parallel_limit(), 5);
    np.set_parallel_limit(3);
    assert_eq!(np.parallel_limit(), 3);
    assert_eq!(np.gate().expect("positive limit").limit(), 3);
    assert_eq!(np.bearer(), "Bearer SECRET-REDACTED");
    let copy = np.clone();
    assert_eq!(copy.parallel_limit(), 3);
    assert_eq!(copy.bearer(), np.bearer());
}

#[test]
fn table_check_needs_tag_and_object() {
    let t = Record::new("t".to_string(), true, "table".to_string(), true, serde_json::Value::Null);
    assert!(t.is_table());
    let no_obj = Record::new("t".to_string(), true, "table".to_string(), false, serde_json::Value::Null);
    assert!(!no_obj.is_table());
    let e = attach_children(no_obj, Ok(vec![leaf("r")]));
    assert!(e.rows().is_none());
    assert!(e.children.is_some());
}

#[test]
fn continuation_needs_flag_and_cursor() {
    let mut r = page("P", 0, 0, Some("c"));
    assert!(r.continues());
    r.has_more = Some(false);
    assert!(!r.continues());
    r.has_more = None;
    assert!(!r.continues());
    let r2 = page("P", 0, 0, None);
    assert!(!r2.continues());
}
