use scanwatch::detector::{Detector, EventKind, Policy, RawEvent};
use scanwatch::engine::{plan, Engine};
use scanwatch::pattern::{search, Search};
use scanwatch::rule::{check_rule, expand_for, verdict_given, Rule, Verdict};
use scanwatch::template::expand;
use scanwatch::text::{base_name, ends_with, expand_tilde, is_under, starts_with};

fn rule(name: &str, cmd: &str, args: &[&str], msg: &str) -> Rule {
    Rule {
        name: name.to_string(),
        cmd: cmd.to_string(),
        args: args.iter().map(|a| a.to_string()).collect(),
        msg: msg.to_string(),
        icon: None,
        ends_with: None,
        starts_with: None,
        filter: None,
        x: String::new(),
        y: String::new(),
        z: String::new(),
        root: None,
    }
}

fn event(path: &str, kind: EventKind) -> RawEvent {
    RawEvent { path: path.to_string(), kind, is_dir: false }
}

fn print_rule() -> Rule {
    let mut r = rule("print", "lpr", &["-Pcolor", "{filename}"], "printing {filename:short}");
    r.ends_with = Some(".pdf".to_string());
    r
}

#[test]
fn short_filename_expands_to_base_name() {
    let r = rule("r", "true", &[], "");
    assert_eq!(expand_for(&r, "/a/b/report.pdf", "{filename:short}"), "report.pdf");
}

#[test]
fn filename_expands_to_full_path() {
    let r = rule("r", "true", &[], "");
    assert_eq!(expand_for(&r, "/a/b/report.pdf", "{filename}"), "/a/b/report.pdf");
}

#[test]
fn message_without_placeholders_is_unchanged() {
    let r = rule("r", "true", &[], "");
    assert_eq!(expand_for(&r, "/a/b/report.pdf", "a new scan arrived"), "a new scan arrived");
    assert_eq!(expand_for(&r, "/a/b/report.pdf", ""), "");
}

#[test]
fn variables_expand_to_rule_values() {
    let mut r = rule("r", "true", &[], "");
    r.x = "one".to_string();
    r.y = "two".to_string();
    assert_eq!(expand_for(&r, "/p/f.txt", "{x}-{y}-{z}!"), "one-two-!");
}

#[test]
fn stray_and_unknown_braces_pass_through() {
    let r = rule("r", "true", &[], "");
    assert_eq!(expand_for(&r, "/p/f.txt", "{ {w} {filename {x"), "{ {w} {filename {x");
    assert_eq!(expand_for(&r, "/p/f.txt", "{{filename}}"), "{/p/f.txt}");
}

#[test]
fn substituted_text_is_not_expanded_again() {
    assert_eq!(expand("{x}{y}", "/f", "f", "{y}", "Y", ""), "{y}Y");
    assert_eq!(expand("{filename}", "/d/{x}", "{x}", "X", "", ""), "/d/{x}");
}

#[test]
fn all_placeholders_in_one_template() {
    assert_eq!(
        expand("lp {filename} ({filename:short}) {x}{y}{z}", "/w/é.pdf", "é.pdf", "1", "2", "3"),
        "lp /w/é.pdf (é.pdf) 123"
    );
}

#[test]
fn base_name_takes_last_component() {
    assert_eq!(base_name("/a/b/report.pdf"), "report.pdf");
    assert_eq!(base_name("report.pdf"), "report.pdf");
    assert_eq!(base_name("/a/b/"), "");
    assert_eq!(base_name(""), "");
}

#[test]
fn affix_tests_compare_exactly() {
    assert!(ends_with("scan_1.pdf", ".pdf"));
    assert!(!ends_with("scan_1.PDF", ".pdf"));
    assert!(!ends_with("df", ".pdf"));
    assert!(starts_with("scan_1.pdf", "scan_"));
    assert!(!starts_with("img_1.pdf", "scan_"));
    assert!(starts_with("x", ""));
}

#[test]
fn suffix_and_prefix_are_both_required() {
    let mut r = rule("r", "true", &[], "");
    r.ends_with = Some(".pdf".to_string());
    r.starts_with = Some("scan_".to_string());
    assert_eq!(check_rule(&r, "scan_1.pdf"), Verdict::Matches);
    assert_eq!(check_rule(&r, "scan_1.txt"), Verdict::SuffixMismatch);
    assert_eq!(check_rule(&r, "img_1.pdf"), Verdict::PrefixMismatch);
}

#[test]
fn rule_without_predicates_accepts_everything() {
    let r = rule("r", "true", &[], "");
    assert_eq!(check_rule(&r, "anything.bin"), Verdict::Matches);
    assert_eq!(check_rule(&r, ""), Verdict::Matches);
}

#[test]
fn filter_matches_anywhere_in_name() {
    let mut r = rule("r", "true", &[], "");
    r.filter = Some("[0-9]+".to_string());
    assert_eq!(check_rule(&r, "scan_12.pdf"), Verdict::Matches);
    assert_eq!(check_rule(&r, "scan.pdf"), Verdict::PatternMismatch);
    r.filter = Some("^scan".to_string());
    assert_eq!(check_rule(&r, "my_scan.pdf"), Verdict::PatternMismatch);
}

#[test]
fn search_reports_each_outcome() {
    assert_eq!(search(&"b+".to_string(), "abbc"), Search::Found);
    assert_eq!(search(&"z".to_string(), "abbc"), Search::NotFound);
    assert_eq!(search(&"(".to_string(), "abbc"), Search::Invalid);
}

#[test]
fn invalid_filter_never_matches() {
    let mut r = rule("r", "true", &[], "");
    r.filter = Some("(unclosed".to_string());
    assert_eq!(check_rule(&r, "scan_1.pdf"), Verdict::InvalidPattern);
    assert_eq!(check_rule(&r, "(unclosed"), Verdict::InvalidPattern);
}

#[test]
fn verdict_given_uses_search_outcome() {
    let mut r = rule("r", "true", &[], "");
    r.filter = Some("x".to_string());
    assert_eq!(verdict_given(&r, "a", Search::Found), Verdict::Matches);
    assert_eq!(verdict_given(&r, "a", Search::NotFound), Verdict::PatternMismatch);
    assert_eq!(verdict_given(&r, "a", Search::Invalid), Verdict::InvalidPattern);
    r.ends_with = Some(".pdf".to_string());
    assert_eq!(verdict_given(&r, "a", Search::Found), Verdict::SuffixMismatch);
    r.filter = None;
    assert_eq!(verdict_given(&r, "a.pdf", Search::Invalid), Verdict::Matches);
}

#[test]
fn invalid_filter_skips_only_its_rule() {
    let mut bad = rule("bad", "echo", &["{filename}"], "bad");
    bad.filter = Some("[".to_string());
    let good = rule("good", "cp", &["{filename}", "/archive"], "archived {filename:short}");
    let ds = plan(&vec![bad, good], "/w/a.pdf");
    assert_eq!(ds.len(), 1);
    assert_eq!(ds[0].rule, 1);
    assert_eq!(ds[0].cmd, "cp");
    assert_eq!(ds[0].args, vec!["/w/a.pdf".to_string(), "/archive".to_string()]);
    assert_eq!(ds[0].message, "archived a.pdf");
}

#[test]
fn all_matching_rules_fire_in_order() {
    let a = rule("print", "lpr", &["{filename}"], "p");
    let b = rule("skip", "rm", &[], "s");
    let mut b2 = b;
    b2.starts_with = Some("zzz".to_string());
    let c = rule("archive", "cp", &[], "a");
    let ds = plan(&vec![a, b2, c], "/w/doc.pdf");
    assert_eq!(ds.len(), 2);
    assert_eq!((ds[0].rule, ds[0].name.as_str()), (0, "print"));
    assert_eq!((ds[1].rule, ds[1].name.as_str()), (2, "archive"));
}

#[test]
fn print_scenario_pdf_dispatches_once() {
    let mut e = Engine::new(vec![print_rule()], Policy::Permissive);
    assert!(e.handle(&event("/watch/x.pdf", EventKind::Created)).is_empty());
    let ds = e.handle(&event("/watch/x.pdf", EventKind::ClosedWrite));
    assert_eq!(ds.len(), 1);
    assert_eq!(ds[0].cmd, "lpr");
    assert_eq!(ds[0].args, vec!["-Pcolor".to_string(), "/watch/x.pdf".to_string()]);
    assert!(ds[0].message.contains("x.pdf"));
    assert_eq!(ds[0].icon, None);
}

#[test]
fn print_scenario_txt_dispatches_nothing() {
    let mut e = Engine::new(vec![print_rule()], Policy::Permissive);
    assert!(e.handle(&event("/watch/x.txt", EventKind::Created)).is_empty());
    assert!(e.handle(&event("/watch/x.txt", EventKind::ClosedWrite)).is_empty());
}

#[test]
fn repeated_cycle_dispatches_twice() {
    for policy in [Policy::Permissive, Policy::Strict] {
        let mut e = Engine::new(vec![print_rule()], policy);
        let mut total = 0;
        for _ in 0..2 {
            assert!(e.handle(&event("/watch/x.pdf", EventKind::Created)).is_empty());
            total += e.handle(&event("/watch/x.pdf", EventKind::ClosedWrite)).len();
        }
        assert_eq!(total, 2);
    }
}

#[test]
fn close_without_create_follows_policy() {
    let mut p = Engine::new(vec![print_rule()], Policy::Permissive);
    assert_eq!(p.handle(&event("/watch/y.pdf", EventKind::ClosedWrite)).len(), 1);
    assert_eq!(p.handle(&event("/watch/y.pdf", EventKind::ClosedWrite)).len(), 1);
    let mut s = Engine::new(vec![print_rule()], Policy::Strict);
    assert!(s.handle(&event("/watch/y.pdf", EventKind::ClosedWrite)).is_empty());
    assert!(s.handle(&event("/watch/y.pdf", EventKind::Created)).is_empty());
    assert_eq!(s.handle(&event("/watch/y.pdf", EventKind::ClosedWrite)).len(), 1);
    assert!(s.handle(&event("/watch/y.pdf", EventKind::ClosedWrite)).is_empty());
    assert_eq!(s.policy(), Policy::Strict);
}

#[test]
fn no_matching_rule_never_dispatches() {
    let mut e = Engine::new(vec![print_rule()], Policy::Permissive);
    for kind in [EventKind::Created, EventKind::Other, EventKind::ClosedWrite, EventKind::ClosedWrite] {
        assert!(e.handle(&event("/watch/notes.md", kind)).is_empty());
    }
    let mut empty = Engine::new(Vec::new(), Policy::Permissive);
    assert!(empty.handle(&event("/watch/x.pdf", EventKind::ClosedWrite)).is_empty());
    assert_eq!(empty.rules().len(), 0);
}

#[test]
fn directory_and_other_events_are_ignored() {
    let mut d = Detector::new(Policy::Permissive);
    let dir_created = RawEvent { path: "/watch/sub".to_string(), kind: EventKind::Created, is_dir: true };
    assert!(!d.on_event(&dir_created));
    assert!(!d.is_pending(&"/watch/sub".to_string()));
    let dir_closed = RawEvent { path: "/watch/sub".to_string(), kind: EventKind::ClosedWrite, is_dir: true };
    assert!(!d.on_event(&dir_closed));
    assert!(!d.on_event(&event("/watch/a.pdf", EventKind::Other)));
    assert!(!d.is_pending(&"/watch/a.pdf".to_string()));
}

#[test]
fn detector_tracks_paths_separately() {
    let mut d = Detector::new(Policy::Strict);
    assert!(!d.on_event(&event("/w/a", EventKind::Created)));
    assert!(!d.on_event(&event("/w/b", EventKind::Created)));
    assert!(!d.on_event(&event("/w/a", EventKind::Created)));
    assert!(d.is_pending(&"/w/a".to_string()));
    assert!(d.on_event(&event("/w/b", EventKind::ClosedWrite)));
    assert!(!d.is_pending(&"/w/b".to_string()));
    assert!(d.is_pending(&"/w/a".to_string()));
    assert!(d.on_event(&event("/w/a", EventKind::ClosedWrite)));
    assert!(!d.on_event(&event("/w/a", EventKind::ClosedWrite)));
    assert_eq!(d.policy(), Policy::Strict);
}

#[test]
fn dispatch_carries_icon_and_variables() {
    let mut r = rule("mail", "mutt", &["-a", "{filename}", "--", "{x}"], "{filename:short} to {x}");
    r.icon = Some("printer".to_string());
    r.x = "me@example.org".to_string();
    let ds = plan(&vec![r], "/scans/s.pdf");
    assert_eq!(ds.len(), 1);
    assert_eq!(ds[0].icon, Some("printer".to_string()));
    assert_eq!(ds[0].args, vec!["-a", "/scans/s.pdf", "--", "me@example.org"]);
    assert_eq!(ds[0].message, "s.pdf to me@example.org");
}

#[test]
fn tilde_component_becomes_home() {
    assert_eq!(expand_tilde("~/scans", "/home/u"), "/home/u/scans");
    assert_eq!(expand_tilde("~", "/home/u"), "/home/u");
    assert_eq!(expand_tilde("a/~/b", "/home/u"), "/home/u/b");
    assert_eq!(expand_tilde("/srv/scans", "/home/u"), "/srv/scans");
    assert_eq!(expand_tilde("~x/scans", "/home/u"), "~x/scans");
    assert_eq!(expand_tilde("/a/b~", "/home/u"), "/a/b~");
    assert_eq!(expand_tilde("~/a/~/b", "/home/u"), "/home/u/b");
}

#[test]
fn relative_home_takes_the_place_of_each_tilde() {
    assert_eq!(expand_tilde("a/~/b", "u"), "a/u/b");
    assert_eq!(expand_tilde("~/scans", "u"), "u/scans");
    assert_eq!(expand_tilde("~/x/~", "u"), "u/x/u");
    assert_eq!(expand_tilde("~x/b~", "u"), "~x/b~");
}

#[test]
fn readiness_query_does_not_change_state() {
    let mut e = Engine::new(vec![print_rule()], Policy::Strict);
    let close = event("/watch/q.pdf", EventKind::ClosedWrite);
    assert!(!e.is_ready_for(&close));
    assert!(e.handle(&event("/watch/q.pdf", EventKind::Created)).is_empty());
    assert!(e.is_ready_for(&close));
    assert!(e.is_ready_for(&close));
    assert!(!e.is_ready_for(&event("/watch/q.pdf", EventKind::Created)));
    assert_eq!(e.handle(&close).len(), 1);
    assert!(!e.is_ready_for(&close));
    let d = Detector::new(Policy::Permissive);
    assert!(d.would_be_ready(&close));
    assert!(!d.would_be_ready(&RawEvent { path: "/watch".to_string(), kind: EventKind::ClosedWrite, is_dir: true }));
}

#[test]
fn paths_under_root() {
    assert!(is_under("/watch", "/watch/x.pdf"));
    assert!(is_under("/watch/", "/watch/x.pdf"));
    assert!(is_under("/watch", "/watch"));
    assert!(!is_under("/watch", "/watcher/x.pdf"));
    assert!(!is_under("/watch", "/other/x.pdf"));
    assert!(is_under("", "/any"));
}

#[test]
fn scoped_rules_only_fire_under_their_root() {
    let mut scans = rule("scans", "lpr", &["{filename}"], "s");
    scans.root = Some("/scans".to_string());
    let mut inbox = rule("inbox", "mv", &["{filename}"], "i");
    inbox.root = Some("/inbox".to_string());
    let everywhere = rule("log", "logger", &["{filename:short}"], "l");
    let rules = vec![scans, inbox, everywhere];
    let a = plan(&rules, "/scans/a.pdf");
    assert_eq!(a.iter().map(|d| d.rule).collect::<Vec<usize>>(), vec![0, 2]);
    let b = plan(&rules, "/inbox/sub/b.pdf");
    assert_eq!(b.iter().map(|d| d.rule).collect::<Vec<usize>>(), vec![1, 2]);
    let c = plan(&rules, "/scansX/c.pdf");
    assert_eq!(c.iter().map(|d| d.rule).collect::<Vec<usize>>(), vec![2]);
}

#[test]
fn permissive_is_the_default_policy() {
    assert_eq!(Policy::default(), Policy::Permissive);
    let mut e = Engine::new(vec![print_rule()], Policy::default());
    assert_eq!(e.handle(&event("/watch/late.pdf", EventKind::ClosedWrite)).len(), 1);
}
