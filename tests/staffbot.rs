use staffbot::control::{handle_control, parse_control_id, ControlEvent, ControlOutcome, ControlStyle};
use staffbot::error::{FilError, RecordField};
use staffbot::fields::{Pole, Status};
use staffbot::fil::{is_valid_timestamp, Fil, Record, MAX_TIMESTAMP, MIN_TIMESTAMP};
use staffbot::ident::{find_id, parse_u64};
use staffbot::ingest::{merge_entry, poll, tag_status, title_status, EntryReport, FeedItem};
use staffbot::registry::Registry;

fn fil(name: &str, url: &str, pole: Pole, status: Status) -> Fil {
    Fil::new(name.to_string(), url.to_string(), pole, status, 1000).unwrap()
}

fn item(title: Option<&str>, date: Option<&str>, link: Option<&str>) -> FeedItem {
    FeedItem {
        title: title.map(|s| s.to_string()),
        pub_date: date.map(|s| s.to_string()),
        link: link.map(|s| s.to_string()),
    }
}

const DATE: &str = "Mon, 01 Jan 2024 00:00:00 +0000";
const DATE_SECS: i64 = 1704067200;

#[test]
fn find_id_with_trailing_slash() {
    assert_eq!(find_id("http://site.example/forum/t-12345/"), Some(12345));
    assert_eq!(Fil::find_id(&"http://site.example/forum/t-12345/".to_string()), Some(12345));
}

#[test]
fn find_id_without_slash_and_with_title() {
    assert_eq!(find_id("http://site.example/forum/t-987/mon-sujet"), Some(987));
    assert_eq!(find_id("http://site.example/forum/t-42"), Some(42));
}

#[test]
fn find_id_none_without_segment() {
    assert_eq!(find_id("http://site.example/forum/c-12/"), None);
    assert_eq!(find_id(""), None);
    assert_eq!(find_id("t-"), None);
}

#[test]
fn find_id_first_segment_wins() {
    assert_eq!(find_id("http://site.example/t-x/t-7/t-8"), Some(7));
}

#[test]
fn find_id_too_large() {
    assert_eq!(find_id("http://site.example/t-99999999999999999999/"), None);
    assert_eq!(find_id("http://site.example/t-18446744073709551615/"), Some(u64::MAX));
}

#[test]
fn parse_u64_forms() {
    let v = |s: &str| s.chars().collect::<Vec<char>>();
    assert_eq!(parse_u64(&v("123")), Some(123));
    assert_eq!(parse_u64(&v("+7")), Some(7));
    assert_eq!(parse_u64(&v("+")), None);
    assert_eq!(parse_u64(&v("")), None);
    assert_eq!(parse_u64(&v("12a")), None);
    assert_eq!(parse_u64(&v("-1")), None);
}

#[test]
fn new_needs_identifier() {
    let f = fil("Sujet", "http://site.example/t-5/", Pole::Technique, Status::Vote);
    assert_eq!(f.get_id(), 5);
    assert_eq!(f.get_date(), 1000);
    assert!(!f.is_modified());
    match Fil::new("x".to_string(), "http://site.example/".to_string(), Pole::Autre, Status::Vote, 0) {
        Err(FilError::UnresolvableUrl(u)) => assert_eq!(u, "http://site.example/"),
        _ => panic!("expected an error"),
    }
}

#[test]
fn record_round_trip_clears_dirty_flag() {
    let mut f = fil("Mon Sujet", "http://site.example/t-77/", Pole::Evenementiel, Status::EnDev);
    f.set_modified(true);
    let rec = f.serialize();
    assert_eq!(rec.nom.as_deref(), Some("Mon Sujet"));
    assert_eq!(rec.pole.as_deref(), Some("Évènementiel"));
    assert_eq!(rec.status.as_deref(), Some("En développement"));
    assert_eq!(rec.last_update, Some(1000));
    assert_eq!(rec.edited, Some(true));
    let g = Fil::from_record(&rec).unwrap();
    assert_eq!(g.get_name(), "Mon Sujet");
    assert_eq!(g.get_lien(), "http://site.example/t-77/");
    assert_eq!(g.get_pole(), Pole::Evenementiel);
    assert_eq!(g.get_status(), Status::EnDev);
    assert_eq!(g.get_date(), 1000);
    assert_eq!(g.get_id(), 77);
    assert!(!g.is_modified());
}

fn record() -> Record {
    Record {
        nom: Some("N".to_string()),
        lien: Some("http://site.example/t-3/".to_string()),
        pole: Some("R&D".to_string()),
        status: Some("Terminé".to_string()),
        last_update: Some(12),
        edited: None,
    }
}

#[test]
fn record_errors_name_the_field() {
    let mut r = record();
    r.lien = None;
    assert!(matches!(Fil::from_record(&r), Err(FilError::MissingField(RecordField::Lien))));
    let mut r = record();
    r.nom = None;
    assert!(matches!(Fil::from_record(&r), Err(FilError::MissingField(RecordField::Nom))));
    let mut r = record();
    r.status = None;
    assert!(matches!(Fil::from_record(&r), Err(FilError::MissingField(RecordField::Status))));
    let mut r = record();
    r.pole = None;
    assert!(matches!(Fil::from_record(&r), Err(FilError::MissingField(RecordField::Pole))));
    let mut r = record();
    r.last_update = None;
    assert!(matches!(Fil::from_record(&r), Err(FilError::MissingField(RecordField::LastUpdate))));
    let mut r = record();
    r.status = Some("Fini".to_string());
    assert!(matches!(Fil::from_record(&r), Err(FilError::UnknownStatus(s)) if s == "Fini"));
    let mut r = record();
    r.pole = Some("RetD".to_string());
    assert!(matches!(Fil::from_record(&r), Err(FilError::UnknownPole(s)) if s == "RetD"));
    let mut r = record();
    r.lien = Some("http://site.example/".to_string());
    assert!(matches!(Fil::from_record(&r), Err(FilError::UnresolvableUrl(_))));
    let f = Fil::from_record(&record()).unwrap();
    assert_eq!(f.get_pole(), Pole::RetD);
    assert_eq!(f.get_status(), Status::Termine);
}

#[test]
fn names_read_back() {
    assert_eq!(Pole::from_name("Légal"), Some(Pole::Legal));
    assert_eq!(Pole::from_name("légal"), None);
    assert_eq!(Status::from_name("Inconnu"), Some(Status::Inconnu));
    assert_eq!(Pole::Creation.name(), "Création");
}

#[test]
fn colors_single_out_internal() {
    assert_eq!(Pole::Interne.get_color(), 0xFF0000);
    assert_eq!(Pole::Autre.get_color(), 0xFFFFFF);
    assert_eq!(Pole::Disciplinaire.get_color(), 0xFFFFFF);
}

#[test]
fn card_and_list_entry() {
    let f = fil("Sujet", "http://site.example/t-9/", Pole::Interne, Status::Vote);
    let c = f.get_embed();
    assert_eq!(c.title, "Sujet");
    assert_eq!(c.footer, "9");
    assert_eq!(c.color, 0xFF0000);
    assert_eq!(c.fields[0], ("Pôle".to_string(), "Interne".to_string()));
    assert_eq!(c.fields[1], ("Statut".to_string(), "Vote".to_string()));
    assert_eq!(f.get_list_entry(), "[**Sujet**](http://site.example/t-9/)\nInterne\nVote\n\n");
}

#[test]
fn buttons_follow_status() {
    let f = fil("S", "http://site.example/t-42/", Pole::Autre, Status::Discussion);
    let b = f.get_buttons();
    let ids: Vec<&str> = b.iter().map(|c| c.custom_id.as_str()).collect();
    assert_eq!(ids, vec!["f-42-v", "f-42-d", "f-42-t"]);
    assert_eq!(b[2].style, ControlStyle::Danger);
    let f = fil("S", "http://site.example/t-42/", Pole::Autre, Status::Vote);
    let b = f.get_buttons();
    assert_eq!(b.len(), 2);
    assert_eq!(b[1].custom_id, "f-42-t");
    assert_eq!(b[1].style, ControlStyle::Success);
    let f = fil("S", "http://site.example/t-42/", Pole::Autre, Status::Termine);
    let b = f.get_buttons();
    assert_eq!(b.len(), 1);
    assert_eq!(b[0].custom_id, "f-42-0");
    assert!(b[0].disabled);
}

fn registry_with(status: Status) -> Registry {
    let mut r = Registry::new(0);
    r.insert(fil("S", "http://site.example/t-42/", Pole::Autre, status));
    r
}

#[test]
fn discussion_to_vote() {
    let mut r = registry_with(Status::Discussion);
    let out = handle_control(&mut r, "f-42-v", 1).unwrap();
    assert!(matches!(out, ControlOutcome::Changed { id: 42, .. }));
    assert_eq!(r.get(42).unwrap().get_status(), Status::Vote);
    assert!(r.get(42).unwrap().is_modified());
}

#[test]
fn development_to_finished() {
    let mut r = registry_with(Status::EnDev);
    match handle_control(&mut r, "f-42-t", 1).unwrap() {
        ControlOutcome::Changed { previous, .. } => assert_eq!(previous.get_status(), Status::EnDev),
        _ => panic!("expected a change"),
    }
    assert_eq!(r.get(42).unwrap().get_status(), Status::Termine);
}

#[test]
fn finished_is_terminal() {
    for code in ["t", "v", "d", "0", "x"] {
        let mut r = registry_with(Status::Termine);
        let out = handle_control(&mut r, &format!("f-42-{code}"), 1).unwrap();
        assert!(!matches!(out, ControlOutcome::Changed { .. }));
        assert_eq!(r.get(42).unwrap().get_status(), Status::Termine);
        assert!(!r.get(42).unwrap().is_modified());
    }
}

#[test]
fn unknown_action_code_changes_nothing() {
    let mut r = registry_with(Status::Discussion);
    let out = handle_control(&mut r, "f-42-x", 1).unwrap();
    assert!(matches!(out, ControlOutcome::UnknownAction(42)));
    assert_eq!(r.get(42).unwrap().get_status(), Status::Discussion);
    assert!(!r.get(42).unwrap().is_modified());
}

#[test]
fn malformed_control_id_fails() {
    for bad in ["f", "f-", "f-abc-v", "f-42"] {
        let mut r = registry_with(Status::Discussion);
        match handle_control(&mut r, bad, 9) {
            Err(FilError::InteractionId(s, m)) => {
                assert_eq!(s, bad);
                assert_eq!(m, 9);
            }
            _ => panic!("expected an identifier error"),
        }
        assert_eq!(r.get(42).unwrap().get_status(), Status::Discussion);
        assert!(!r.get(42).unwrap().is_modified());
    }
}

#[test]
fn foreign_control_is_ignored() {
    let mut r = registry_with(Status::Discussion);
    assert!(matches!(handle_control(&mut r, "x-42-v", 1), Ok(ControlOutcome::Ignored)));
    assert_eq!(parse_control_id("f-7-d-extra", 1).unwrap(), ControlEvent::Request { id: 7, target: Status::EnDev });
}

#[test]
fn missing_thread_is_reported() {
    let mut r = registry_with(Status::Discussion);
    assert!(matches!(handle_control(&mut r, "f-43-v", 1), Err(FilError::ObjectNotFound(43))));
}

#[test]
fn title_tags_give_status() {
    assert_eq!(title_status("[Vote] Mon Sujet"), Status::Vote);
    assert_eq!(title_status("[Terminé][Développement] Autre Sujet"), Status::EnDev);
    assert_eq!(title_status("[VOTE] Sujet"), Status::Vote);
    assert_eq!(title_status("[Terminé] Sujet"), Status::Vote);
    assert_eq!(title_status("[Idée] Sujet"), Status::Discussion);
    assert_eq!(tag_status("en développement"), Some(Status::EnDev));
    assert_eq!(tag_status("autre"), None);
}

#[test]
fn entry_with_tag_is_added() {
    let mut r = Registry::new(0);
    let mut latest = 0;
    let it = item(Some("[Vote] Mon Sujet"), Some(DATE), Some("http://site.example/t-100/"));
    let rep = merge_entry(&mut r, Pole::Technique, &it, &mut latest, 5);
    assert_eq!(rep, EntryReport::Added(100));
    assert_eq!(latest, DATE_SECS);
    let f = r.get(100).unwrap();
    assert_eq!(f.get_name(), "Mon Sujet");
    assert_eq!(f.get_status(), Status::Vote);
    assert_eq!(f.get_pole(), Pole::Technique);
    assert_eq!(f.get_date(), 5);
}

#[test]
fn entry_without_bracket_is_skipped() {
    let mut r = Registry::new(0);
    let mut latest = 0;
    let it = item(Some("Mon Sujet"), Some(DATE), Some("http://site.example/t-100/"));
    assert_eq!(merge_entry(&mut r, Pole::Technique, &it, &mut latest, 5), EntryReport::Untagged);
    assert_eq!(r.len(), 0);
    assert_eq!(latest, DATE_SECS);
}

#[test]
fn entry_skips() {
    let mut r = Registry::new(DATE_SECS);
    let mut latest = 0;
    let old = item(Some("[Vote] A"), Some(DATE), Some("http://site.example/t-1/"));
    assert_eq!(merge_entry(&mut r, Pole::Autre, &old, &mut latest, 5), EntryReport::Old);
    let undated = item(Some("[Vote] A"), None, Some("http://site.example/t-1/"));
    assert_eq!(merge_entry(&mut r, Pole::Autre, &undated, &mut latest, 5), EntryReport::Undated);
    let bad_date = item(Some("[Vote] A"), Some("hier"), Some("http://site.example/t-1/"));
    assert_eq!(merge_entry(&mut r, Pole::Autre, &bad_date, &mut latest, 5), EntryReport::BadDate);
    let later = "Tue, 02 Jan 2024 00:00:00 +0000";
    let no_link = item(Some("[Vote] A"), Some(later), None);
    assert_eq!(merge_entry(&mut r, Pole::Autre, &no_link, &mut latest, 5), EntryReport::NoLink);
    let bad_link = item(Some("[Vote] A"), Some(later), Some("http://site.example/"));
    assert_eq!(merge_entry(&mut r, Pole::Autre, &bad_link, &mut latest, 5), EntryReport::BadLink);
    assert_eq!(r.len(), 0);
    assert_eq!(latest, DATE_SECS + 86400);
}

#[test]
fn empty_name_gets_fallback() {
    let mut r = Registry::new(0);
    let mut latest = 0;
    let a = item(Some("[Vote]"), Some(DATE), Some("http://site.example/t-1/"));
    assert_eq!(merge_entry(&mut r, Pole::Autre, &a, &mut latest, 5), EntryReport::Added(1));
    assert_eq!(r.get(1).unwrap().get_name(), "(sans nom 0)");
    let b = item(Some("[Vote] "), Some(DATE), Some("http://site.example/t-2/"));
    assert_eq!(merge_entry(&mut r, Pole::Autre, &b, &mut latest, 5), EntryReport::Added(2));
    assert_eq!(r.get(2).unwrap().get_name(), "(sans nom 1)");
    assert_eq!(r.count_named("sans nom"), 2);
}

#[test]
fn known_entry_is_duplicate() {
    let mut r = Registry::new(0);
    let mut latest = 0;
    let a = item(Some("[Vote] Sujet"), Some(DATE), Some("http://site.example/t-1/"));
    assert_eq!(merge_entry(&mut r, Pole::Autre, &a, &mut latest, 5), EntryReport::Added(1));
    let b = item(Some("[Développement] Autre"), Some(DATE), Some("http://site.example/t-1/"));
    assert_eq!(merge_entry(&mut r, Pole::Legal, &b, &mut latest, 6), EntryReport::Duplicate { id: 1, date: DATE_SECS });
    assert_eq!(r.len(), 1);
    let f = r.get(1).unwrap();
    assert_eq!(f.get_name(), "Sujet");
    assert_eq!(f.get_status(), Status::Vote);
    assert_eq!(f.get_pole(), Pole::Autre);
}

fn feed(items: &[(&str, &str, &str)]) -> Vec<u8> {
    let mut s = String::from("<?xml version=\"1.0\"?><rss version=\"2.0\"><channel><title>F</title><link>http://site.example/</link><description>D</description>");
    for (t, d, l) in items {
        s.push_str(&format!("<item><title>{t}</title><pubDate>{d}</pubDate><link>{l}</link></item>"));
    }
    s.push_str("</channel></rss>");
    s.into_bytes()
}

#[test]
fn poll_merges_feeds_and_moves_watermark() {
    let mut r = Registry::new(0);
    let feeds = vec![
        (Pole::Interne, feed(&[("[Vote] Un", DATE, "http://site.example/t-1/")])),
        (Pole::Legal, feed(&[
            ("Sans tag", "Wed, 03 Jan 2024 00:00:00 +0000", "http://site.example/t-2/"),
            ("[Développement] Trois", "Tue, 02 Jan 2024 00:00:00 +0000", "http://site.example/t-3/"),
        ])),
    ];
    let reports = poll(&mut r, &feeds, 7).unwrap();
    assert_eq!(reports, vec![EntryReport::Added(1), EntryReport::Untagged, EntryReport::Added(3)]);
    assert_eq!(r.last_poll_time(), DATE_SECS + 2 * 86400);
    assert!(r.needs_refresh());
    assert_eq!(r.get(1).unwrap().get_pole(), Pole::Interne);
    assert_eq!(r.get(3).unwrap().get_status(), Status::EnDev);
    assert_eq!(r.get(3).unwrap().get_name(), "Trois");
    let again = poll(&mut r, &feeds, 8).unwrap();
    assert_eq!(again, vec![EntryReport::Old, EntryReport::Old, EntryReport::Old]);
    assert_eq!(r.len(), 2);
}

#[test]
fn poll_with_unreadable_feed_changes_nothing() {
    let mut r = Registry::new(0);
    let feeds = vec![
        (Pole::Interne, feed(&[("[Vote] Un", DATE, "http://site.example/t-1/")])),
        (Pole::Legal, b"not a feed".to_vec()),
    ];
    assert!(matches!(poll(&mut r, &feeds, 7), Err(FilError::BadFeed)));
    assert_eq!(r.len(), 0);
    assert_eq!(r.last_poll_time(), 0);
}

#[test]
fn watermark_never_moves_back() {
    let mut r = Registry::new(DATE_SECS + 1000);
    let feeds = vec![(Pole::Interne, feed(&[("[Vote] Un", DATE, "http://site.example/t-1/")]))];
    poll(&mut r, &feeds, 7).unwrap();
    assert_eq!(r.last_poll_time(), DATE_SECS + 1000);
}

#[test]
fn fields_comply_and_set() {
    let mut f = fil("S", "http://site.example/t-4/", Pole::Ambassade, Status::Vote);
    assert!(Pole::comply_with(&f, &None));
    assert!(Pole::comply_with(&f, &Some(Pole::Ambassade)));
    assert!(!Pole::comply_with(&f, &Some(Pole::Legal)));
    assert!(!Status::comply_with(&f, &Some(Status::EnDev)));
    Pole::set_for(&mut f, &Pole::Legal);
    Status::set_for(&mut f, &Status::EnDev);
    assert_eq!(f.get_pole(), Pole::Legal);
    assert_eq!(f.get_status(), Status::EnDev);
}

#[test]
fn registry_search_matching_and_put() {
    let mut r = Registry::new(0);
    assert!(r.insert(fil("Alpha projet", "http://site.example/t-1/", Pole::Interne, Status::Vote)));
    assert!(r.insert(fil("Beta", "http://site.example/t-2/", Pole::Legal, Status::Vote)));
    assert!(r.insert(fil("Gamma projet", "http://site.example/t-3/", Pole::Legal, Status::EnDev)));
    assert!(!r.insert(fil("Autre", "http://site.example/t-3/", Pole::Legal, Status::EnDev)));
    assert_eq!(r.search("projet"), vec![1, 3]);
    assert_eq!(r.matching(&Some(Status::Vote), &None), vec![1, 2]);
    assert_eq!(r.matching(&Some(Status::Vote), &Some(Pole::Legal)), vec![2]);
    assert_eq!(r.matching(&None, &None), vec![1, 2, 3]);
    r.put(fil("Beta bis", "http://site.example/t-2/", Pole::Autre, Status::Termine));
    assert_eq!(r.len(), 3);
    assert_eq!(r.get(2).unwrap().get_name(), "Beta bis");
    r.put(fil("Delta", "http://site.example/t-9/", Pole::Autre, Status::Termine));
    assert_eq!(r.len(), 4);
}

#[test]
fn find_id_reads_regex_digits() {
    assert_eq!(find_id("http://site.example/t-\u{663}/t-5"), None);
    assert_eq!(find_id("http://site.example/t-+5/"), None);
}

#[test]
fn title_with_closing_bracket_only_is_skipped() {
    let mut r = Registry::new(0);
    let mut latest = 0;
    let it = item(Some("Mon] Sujet"), Some(DATE), Some("http://site.example/t-100/"));
    assert_eq!(merge_entry(&mut r, Pole::Technique, &it, &mut latest, 5), EntryReport::Untagged);
    let it = item(Some("[Mon Sujet"), Some(DATE), Some("http://site.example/t-100/"));
    assert_eq!(merge_entry(&mut r, Pole::Technique, &it, &mut latest, 5), EntryReport::Untagged);
    assert_eq!(r.len(), 0);
}

#[test]
fn record_time_must_be_a_timestamp() {
    let mut r = record();
    r.last_update = Some(1_000_000_000_000_000);
    assert!(matches!(Fil::from_record(&r), Err(FilError::MissingField(RecordField::LastUpdate))));
    r.last_update = Some(MAX_TIMESTAMP + 1);
    assert!(matches!(Fil::from_record(&r), Err(FilError::MissingField(RecordField::LastUpdate))));
    r.last_update = Some(MIN_TIMESTAMP - 1);
    assert!(matches!(Fil::from_record(&r), Err(FilError::MissingField(RecordField::LastUpdate))));
    r.last_update = Some(MAX_TIMESTAMP);
    assert_eq!(Fil::from_record(&r).unwrap().get_date(), MAX_TIMESTAMP);
    r.last_update = Some(MIN_TIMESTAMP);
    assert_eq!(Fil::from_record(&r).unwrap().get_date(), MIN_TIMESTAMP);
    assert!(is_valid_timestamp(0));
    assert!(!is_valid_timestamp(i64::MAX));
}

#[test]
fn poll_twice_changes_nothing() {
    let mut r = Registry::new(0);
    let feeds = vec![(Pole::Interne, feed(&[("[Vote] Un", DATE, "http://site.example/t-1/")]))];
    poll(&mut r, &feeds, 7).unwrap();
    let wm = r.last_poll_time();
    assert_eq!(poll(&mut r, &feeds, 8).unwrap(), vec![EntryReport::Old]);
    assert_eq!(r.last_poll_time(), wm);
    assert_eq!(r.len(), 1);
    assert_eq!(r.get(1).unwrap().get_date(), 7);
}
