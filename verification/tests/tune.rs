use editor::commands::{add_command_action, parse_server_command, remove_command_action};
use editor::tune_zones::{add_tune_action, sort_zone_actions, CommandValue, TuneZone};
use editor::timeline::{curve_label, next_curve, CurveKind};
use editor::tune::{parse_tune_command, sort_zone_plan, ZoneStep};

fn chars(s: &str) -> Vec<char> {
    s.chars().collect()
}

fn text(v: &[char]) -> String {
    v.iter().collect()
}

fn parse(s: &str) -> Option<(String, String, Option<String>)> {
    parse_tune_command(&chars(s)).map(|(n, v, c)| (text(&n), text(&v), c.map(|c| text(&c))))
}

#[test]
fn sort_plan_clears_then_puts_back_by_number() {
    let plan = sort_zone_plan(&vec![7, 2, 5]);
    let clear = |zone| ZoneStep { zone, clear: true };
    let back = |zone| ZoneStep { zone, clear: false };
    assert_eq!(plan, vec![clear(0), clear(1), clear(2), back(1), back(2), back(0)]);
    assert!(sort_zone_plan(&vec![]).is_empty());
}

#[test]
fn tune_command_with_comment() {
    assert_eq!(
        parse("  gravity 0.25 # low gravity  "),
        Some(("gravity".to_string(), "0.25".to_string(), Some("low gravity".to_string())))
    );
}

#[test]
fn tune_command_without_comment() {
    assert_eq!(parse("gravity 0.25"), Some(("gravity".to_string(), "0.25".to_string(), None)));
}

#[test]
fn tune_command_value_keeps_inner_space() {
    assert_eq!(parse("gravity  0.25"), Some(("gravity".to_string(), " 0.25".to_string(), None)));
}

#[test]
fn tune_command_needs_name_and_value() {
    assert_eq!(parse(""), None);
    assert_eq!(parse("gravity"), None);
    assert_eq!(parse("   "), None);
    assert_eq!(parse("gravity # only a name"), None);
}

fn server(s: &str) -> (String, Option<String>) {
    let (c, m) = parse_server_command(&chars(s));
    (text(&c), m.map(|m| text(&m)))
}

#[test]
fn server_command_with_and_without_comment() {
    assert_eq!(server(" sv_gametype ddnet # mode "), ("sv_gametype ddnet".to_string(), Some("mode".to_string())));
    assert_eq!(server("  tune gravity 0.5  "), ("tune gravity 0.5".to_string(), None));
    assert_eq!(server(""), (String::new(), None));
    assert_eq!(server("#"), (String::new(), Some(String::new())));
}

#[test]
fn curve_button_cycles() {
    let mut k = CurveKind::Step;
    let mut labels = String::new();
    for _ in 0..6 {
        labels.push(curve_label(k));
        k = next_curve(k);
    }
    assert_eq!(labels, "NLSFMB");
    assert_eq!(k, CurveKind::Step);
}

fn s(v: &str) -> String {
    v.to_string()
}

fn cmd(v: &str, c: Option<&str>) -> CommandValue {
    CommandValue { value: s(v), comment: c.map(s) }
}

fn zone(name: &str, tunes: Vec<(&str, &str)>) -> TuneZone {
    TuneZone {
        name: s(name),
        tunes: tunes.into_iter().map(|(n, v)| (s(n), cmd(v, None))).collect(),
        enter_msg: Some(s("hi")),
        leave_msg: None,
    }
}

fn tune_names(t: &[(String, CommandValue)]) -> Vec<(String, String)> {
    t.iter().map(|(n, c)| (n.clone(), c.value.clone())).collect()
}

#[test]
fn sort_actions_clear_then_restore_by_number() {
    let zones = vec![(4u8, zone("b", vec![("gravity", "1")])), (1u8, zone("a", vec![]))];
    let acts = sort_zone_actions(&zones);
    assert_eq!(acts.len(), 4);
    assert_eq!(acts[0].index, 4);
    assert_eq!(acts[0].old_name, "b");
    assert_eq!(acts[0].new_name, "");
    assert!(acts[0].new_tunes.is_empty());
    assert_eq!(tune_names(&acts[0].old_tunes), vec![(s("gravity"), s("1"))]);
    assert_eq!(acts[0].old_enter_msg, Some(s("hi")));
    assert_eq!(acts[0].new_enter_msg, None);
    assert_eq!(acts[1].index, 1);
    assert_eq!(acts[2].index, 1);
    assert_eq!(acts[2].new_name, "a");
    assert_eq!(acts[3].index, 4);
    assert_eq!(tune_names(&acts[3].new_tunes), vec![(s("gravity"), s("1"))]);
    assert_eq!(acts[3].new_enter_msg, Some(s("hi")));
}

#[test]
fn add_tune_replaces_and_moves_last() {
    let zones = vec![(2u8, zone("z", vec![("gravity", "1"), ("jump", "2")]))];
    let a = add_tune_action(&zones, 2, s("gravity"), s("0.5"), Some(s("low")));
    assert_eq!(a.index, 2);
    assert_eq!(a.new_name, "z");
    assert_eq!(tune_names(&a.old_tunes), vec![(s("gravity"), s("1")), (s("jump"), s("2"))]);
    assert_eq!(tune_names(&a.new_tunes), vec![(s("jump"), s("2")), (s("gravity"), s("0.5"))]);
    assert_eq!(a.new_tunes[1].1.comment, Some(s("low")));
    assert_eq!(a.new_enter_msg, Some(s("hi")));
}

#[test]
fn add_tune_to_missing_zone_starts_empty() {
    let a = add_tune_action(&vec![], 9, s("gravity"), s("0.5"), None);
    assert_eq!(a.index, 9);
    assert!(a.old_tunes.is_empty());
    assert_eq!(tune_names(&a.new_tunes), vec![(s("gravity"), s("0.5"))]);
    assert_eq!(a.old_enter_msg, None);
}

#[test]
fn server_command_list_actions() {
    let cmds = vec![cmd("sv_a 1", None), cmd("sv_b 2", Some("c"))];
    let add = add_command_action(&cmds, s("sv_c 3"), None);
    assert_eq!(add.old_commands.len(), 2);
    assert_eq!(add.new_commands.len(), 3);
    assert_eq!(add.new_commands[2].value, "sv_c 3");
    let rem = remove_command_action(&cmds, 0);
    assert_eq!(rem.new_commands.len(), 1);
    assert_eq!(rem.new_commands[0].value, "sv_b 2");
    assert_eq!(rem.new_commands[0].comment, Some(s("c")));
}

#[test]
fn unicode_white_space_splits_command() {
    assert_eq!(parse("gravity\u{3000}0.25"), Some((s("gravity"), s("0.25"), None)));
    assert_eq!(parse("\u{a0}gravity 1\u{2028}"), Some((s("gravity"), s("1"), None)));
}
