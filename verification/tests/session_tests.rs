use sugata::commands::{load, show, skill};
use sugata::session::{error_description, status_names, CommandError, PlayerSheet, Session};

fn rows(cells: &[(&str, &str)]) -> Vec<Vec<String>> {
    cells.iter().map(|(a, b)| vec![a.to_string(), b.to_string()]).collect()
}

fn loaded_session() -> Session {
    let alice = PlayerSheet::from_rows(
        "Alice Char".to_string(),
        &rows(&[("目星", "60"), ("聞き耳", "50"), ("SAN", "65"), ("目星", "70")]),
    );
    let bob = PlayerSheet::from_rows("Bob Char".to_string(), &rows(&[("POW", "+45"), ("MP", "9")]));
    let mut s = Session::new();
    let report = load(&mut s, &vec![("alice".to_string(), alice), ("bob".to_string(), bob)]);
    assert_eq!(report, "alice: **Alice Char**\nbob: **Bob Char**");
    s
}

#[test]
fn rows_become_a_sorted_table() {
    let sheet = PlayerSheet::from_rows(
        "C".to_string(),
        &rows(&[("a", "10"), ("b", "30"), ("c", "10"), ("a", "20"), ("d", "30")]),
    );
    assert_eq!(sheet.skill_names_starting_with(""), vec!["b", "d", "a", "c"]);
    assert_eq!(sheet.skill_value("a"), Some(20));
    assert_eq!(sheet.skill_value("c"), Some(10));
    assert_eq!(sheet.skill_value("e"), None);
    let copy = sheet.duplicate();
    assert_eq!(copy.skill_names_starting_with(""), vec!["b", "d", "a", "c"]);
    assert_eq!(copy.character(), "C");
}

#[test]
fn nothing_loaded_is_refused() {
    let s = Session::new();
    let r = skill(&s, "alice", "目星".to_string(), None, None, None, None);
    assert_eq!(r, Err(CommandError::NotLoaded));
    assert_eq!(
        error_description(&CommandError::NotLoaded),
        "キャラクターシートが読み込まれていません．\n`/load`でロードしてください．"
    );
    assert_eq!(show(&s, "alice"), Err(CommandError::NotLoaded));
}

#[test]
fn skill_requests() {
    let s = loaded_session();
    let msg = skill(&s, "alice", "目星".to_string(), Some("+".to_string()), Some(10), None, None).unwrap();
    assert!(msg.starts_with("`技能ロール / 目星: 80(+10)`\n=> "), "{}", msg);
    let msg = skill(&s, "bob", "POW".to_string(), None, None, Some(1), None).unwrap();
    assert!(msg.starts_with("`技能ロール / POW: 45(±0, b1)`\n=> "), "{}", msg);
    assert_eq!(
        skill(&s, "carol", "目星".to_string(), None, None, None, None),
        Err(CommandError::UnknownPlayer("carol".to_string()))
    );
    assert_eq!(
        skill(&s, "alice", "POW".to_string(), None, None, None, None),
        Err(CommandError::UnknownSkill("POW".to_string()))
    );
    assert_eq!(
        skill(&s, "alice", "目星".to_string(), Some("%".to_string()), Some(3), None, None),
        Err(CommandError::InvalidOperator("%".to_string()))
    );
    assert_eq!(s.skill_roll("alice", "SAN", &None), Ok(65));
}

#[test]
fn error_descriptions() {
    assert_eq!(
        error_description(&CommandError::UnknownPlayer("carol".to_string())),
        "**carol**のデータは読み込まれていません．\nユーザーのキャラクターシートを作成し，`/load`で再ロードしてください．"
    );
    assert_eq!(
        error_description(&CommandError::UnknownSkill("POW".to_string())),
        "**POW**に該当する技能がありません．"
    );
    assert_eq!(
        error_description(&CommandError::InvalidOperator("%".to_string())),
        "無効な演算子: **%** が入力されています．"
    );
}

#[test]
fn set_then_read_back() {
    let mut s = loaded_session();
    let msg = sugata::commands::set(&mut s, "alice", "SAN", "-", 5).unwrap();
    assert_eq!(msg, "`ステータス修正 / SAN(65) - 5`\n=> **60**");
    assert_eq!(s.skill_roll("alice", "SAN", &None), Ok(60));
    assert_eq!(s.skill_roll("alice", "目星", &None), Ok(70));
    assert_eq!(s.skill_roll("bob", "POW", &None), Ok(45));
    let msg = sugata::commands::set(&mut s, "alice", "聞き耳", "-", 100).unwrap();
    assert_eq!(msg, "`ステータス修正 / 聞き耳(50) - 100`\n=> **0**");
    let msg = sugata::commands::set(&mut s, "bob", "MP", "*", usize::MAX).unwrap();
    assert_eq!(msg, format!("`ステータス修正 / MP(9) * {}`\n=> **{}**", usize::MAX, usize::MAX));
    let msg = sugata::commands::set(&mut s, "bob", "POW", "/", 2).unwrap();
    assert_eq!(msg, "`ステータス修正 / POW(45) / 2`\n=> **22**");
    let msg = sugata::commands::set(&mut s, "bob", "POW", "+", 3).unwrap();
    assert_eq!(msg, "`ステータス修正 / POW(22) + 3`\n=> **25**");
    assert_eq!(
        show(&s, "alice").unwrap(),
        "`ステータス / alice: Alice Char`\n目星: 70\nSAN: 60\n聞き耳: 0"
    );
}

#[test]
fn refused_set_changes_nothing() {
    let mut s = loaded_session();
    assert_eq!(sugata::commands::set(&mut s, "alice", "SAN", "^", 5), Err(CommandError::InvalidOperator("^".to_string())));
    assert_eq!(sugata::commands::set(&mut s, "alice", "LUCK", "+", 5), Err(CommandError::UnknownSkill("LUCK".to_string())));
    assert_eq!(sugata::commands::set(&mut s, "dave", "SAN", "+", 5), Err(CommandError::UnknownPlayer("dave".to_string())));
    assert_eq!(s.skill_roll("alice", "SAN", &None), Ok(65));
    assert_eq!(
        show(&s, "alice").unwrap(),
        "`ステータス / alice: Alice Char`\n目星: 70\nSAN: 65\n聞き耳: 50"
    );
    assert_eq!(show(&s, "dave"), Err(CommandError::UnknownPlayer("dave".to_string())));
}

#[test]
fn reload_replaces_sheets() {
    let mut s = loaded_session();
    let carol = PlayerSheet::from_rows("Carol Char".to_string(), &rows(&[("SAN", "40")]));
    let old = PlayerSheet::from_rows("Old".to_string(), &rows(&[("SAN", "1")]));
    let report = load(&mut s, &vec![("carol".to_string(), old), ("carol".to_string(), carol)]);
    assert_eq!(report, "carol: **Old**\ncarol: **Carol Char**");
    assert_eq!(s.skill_roll("carol", "SAN", &None), Ok(40));
    assert_eq!(s.skill_roll("alice", "SAN", &None), Err(CommandError::UnknownPlayer("alice".to_string())));
}

#[test]
fn autocompletion_lists() {
    let s = loaded_session();
    assert_eq!(s.skill_names_for("alice", "目"), vec!["目星"]);
    assert_eq!(s.skill_names_for("alice", ""), vec!["目星", "SAN", "聞き耳"]);
    assert_eq!(s.skill_names_for("bob", "x"), Vec::<String>::new());
    assert_eq!(
        status_names(),
        vec!["STR", "CON", "SIZ", "DEX", "APP", "INT", "POW", "EDU", "SAN", "MP", "幸運", "耐久力"]
    );
}

#[test]
fn set_and_set_back_restores_the_sheet() {
    let mut s = loaded_session();
    let before = show(&s, "alice").unwrap();
    sugata::commands::set(&mut s, "alice", "聞き耳", "+", 7).unwrap();
    assert_eq!(
        show(&s, "alice").unwrap(),
        "`ステータス / alice: Alice Char`\n目星: 70\nSAN: 65\n聞き耳: 57"
    );
    sugata::commands::set(&mut s, "alice", "聞き耳", "-", 7).unwrap();
    assert_eq!(show(&s, "alice").unwrap(), before);
    sugata::commands::set(&mut s, "alice", "SAN", "*", 1).unwrap();
    sugata::commands::set(&mut s, "alice", "SAN", "/", 1).unwrap();
    assert_eq!(show(&s, "alice").unwrap(), before);
    assert_eq!(show(&s, "bob").unwrap(), "`ステータス / bob: Bob Char`\nPOW: 45\nMP: 9");
}

#[test]
fn skill_names_are_listed_once() {
    let sheet = PlayerSheet::from_rows(
        "C".to_string(),
        &rows(&[("目星", "10"), ("目星", "20"), ("目星", "30"), ("聞き耳", "5")]),
    );
    assert_eq!(sheet.skill_names_starting_with(""), vec!["目星", "聞き耳"]);
    assert_eq!(sheet.skill_value("目星"), Some(30));
}
