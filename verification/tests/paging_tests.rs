use jiri::json::JsonValue;
use jiri::paging::Paginator;

fn num(v: i64) -> JsonValue {
    JsonValue::Number(v.to_string())
}

/// A synthetic upstream holding `total` records, honouring the requested
/// page bound and handing out a cursor while records remain.
struct FakeSource {
    total: i64,
    served: i64,
    fetches: usize,
}

impl FakeSource {
    fn new(total: i64) -> FakeSource {
        FakeSource { total, served: 0, fetches: 0 }
    }

    fn fetch(&mut self, max_results: i64) -> (Vec<JsonValue>, Option<String>) {
        self.fetches += 1;
        let left = self.total - self.served;
        let give = left.min(max_results).max(0);
        let page: Vec<JsonValue> = (0..give).map(|k| num(self.served + k)).collect();
        self.served += give;
        let cursor = if self.served < self.total {
            Some(format!("cursor-{}", self.served))
        } else {
            None
        };
        (page, cursor)
    }
}

fn collect(source: &mut FakeSource, limit: i64) -> (Vec<JsonValue>, bool) {
    let mut pager = Paginator::new(limit);
    while let Some(req) = pager.next_request() {
        let (page, cursor) = source.fetch(req.max_results);
        pager.accept_page(page, cursor);
    }
    pager.into_result()
}

#[test]
fn cap_reached_with_cursor_outstanding() {
    let mut source = FakeSource::new(350);
    let (records, more) = collect(&mut source, 250);
    assert_eq!(records.len(), 250);
    assert!(more);
    // pages of 100, 100, and the capped 50
    assert_eq!(source.fetches, 3);
}

#[test]
fn requests_shrink_to_what_the_cap_allows() {
    let mut pager = Paginator::new(250);
    let req = pager.next_request().unwrap();
    assert_eq!(req.max_results, 100);
    assert_eq!(req.cursor, None);
    pager.accept_page((0..100).map(num).collect(), Some("c1".to_string()));
    pager.accept_page((0..100).map(num).collect(), Some("c2".to_string()));
    let req = pager.next_request().unwrap();
    assert_eq!(req.max_results, 50);
    assert_eq!(req.cursor, Some("c2".to_string()));
}

#[test]
fn upstream_exhausted_before_cap() {
    let mut source = FakeSource::new(80);
    let (records, more) = collect(&mut source, 250);
    assert_eq!(records.len(), 80);
    assert!(!more);
    assert_eq!(source.fetches, 1);
}

#[test]
fn exhaustion_exactly_at_cap_reports_no_more() {
    let mut source = FakeSource::new(200);
    let (records, more) = collect(&mut source, 200);
    assert_eq!(records.len(), 200);
    assert!(!more);
}

#[test]
fn zero_limit_issues_no_fetch() {
    let mut source = FakeSource::new(10);
    let (records, more) = collect(&mut source, 0);
    assert!(records.is_empty());
    assert!(!more);
    assert_eq!(source.fetches, 0);
}

#[test]
fn negative_limit_issues_no_fetch() {
    let mut source = FakeSource::new(10);
    let (records, more) = collect(&mut source, -5);
    assert!(records.is_empty());
    assert!(!more);
    assert_eq!(source.fetches, 0);
}

#[test]
fn empty_page_is_terminal_even_with_cursor() {
    let mut pager = Paginator::new(50);
    pager.accept_page(Vec::new(), Some("dangling".to_string()));
    assert!(pager.next_request().is_none());
    let (records, more) = pager.into_result();
    assert!(records.is_empty());
    assert!(!more);
}

#[test]
fn missing_cursor_is_terminal() {
    let mut pager = Paginator::new(50);
    pager.accept_page(vec![num(1), num(2)], None);
    assert!(pager.next_request().is_none());
    let (records, more) = pager.into_result();
    assert_eq!(records.len(), 2);
    assert!(!more);
}
