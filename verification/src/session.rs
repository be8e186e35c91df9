//! The loaded character sheets of a session and the requests made against them.
use vstd::prelude::*;
use vstd::hash_map::StringHashMap;
use indexmap::IndexMap;
use crate::correction::{opt_text, operator_of, parse_operator, saturated, saturating_correction, Operator};
use crate::skills::{
    lemma_write_back_restores, distinct_keys, lemma_insert_distinct, lemma_table_from_rows, insert_entry, lookup, lemma_lookup_insert, map_clone, map_get, map_get_index, map_insert, map_len,
    rows_table, rows_well_formed, skill_entries, skills_from_rows, stable_desc_sort_of,
};
use crate::text::{decimal, has_prefix, push_decimal, starts_with};

verus! {

/// A player's character sheet: the character's name and the skill table, whose skill
/// names are distinct.
pub struct PlayerSheet {
    character: String,
    skills: IndexMap<String, usize>,
}

impl View for PlayerSheet {
    type V = (Seq<char>, Seq<(Seq<char>, usize)>);

    /// The character's name and the entries of the skill table, in order.
    closed spec fn view(&self) -> Self::V {
        (self.character@, skill_entries(self.skills))
    }
}

impl PlayerSheet {
    /// No two skills of a sheet have the same name.
    #[verifier::type_invariant]
    spec fn distinct_skills(self) -> bool {
        distinct_keys(skill_entries(self.skills))
    }

    /// The character's name.
    pub fn character(&self) -> (c: &String)
        ensures
            c@ == self@.0,
    {
        &self.character
    }

    /// The skill names of a sheet are distinct.
    pub fn skills_are_distinct(&self)
        ensures
            distinct_keys(self@.1),
    {
        proof {
            use_type_invariant(self);
        }
    }

    /// The sheet of `character` whose skill table is built from the sheet's rows.
    pub fn from_rows(character: String, rows: &Vec<Vec<String>>) -> (sheet: PlayerSheet)
        requires
            rows_well_formed(rows@),
        ensures
            sheet@.0 == character@,
            stable_desc_sort_of(sheet@.1, rows_table(rows@)),
            distinct_keys(sheet@.1),
    {
        let skills = skills_from_rows(rows);
        proof {
            lemma_table_from_rows(skill_entries(skills), rows@, Seq::empty());
        }
        PlayerSheet { character, skills }
    }

    /// The value of the skill `name`, if the sheet has it.
    pub fn skill_value(&self, name: &str) -> (r: Option<usize>)
        ensures
            r == lookup(self@.1, name@),
    {
        map_get(&self.skills, name)
    }

    /// A copy of the sheet.
    pub fn duplicate(&self) -> (c: PlayerSheet)
        ensures
            c@ == self@,
    {
        proof {
            use_type_invariant(self);
        }
        PlayerSheet { character: self.character.clone(), skills: map_clone(&self.skills) }
    }

    /// The names of the sheet's skills that start with `partial`, in the sheet's order.
    pub fn skill_names_starting_with(&self, partial: &str) -> (names: Vec<String>)
        ensures
            names@.map_values(|s: String| s@) == names_with_prefix(self@.1, partial@),
            names@.map_values(|s: String| s@).no_duplicates(),
    {
        proof {
            use_type_invariant(self);
            lemma_names_with_prefix(self@.1, partial@);
        }
        let n = map_len(&self.skills);
        let mut names: Vec<String> = Vec::new();
        let mut i: usize = 0;
        while i < n
            invariant
                i <= n,
                n == self@.1.len(),
                names@.map_values(|s: String| s@) == names_with_prefix(
                    self@.1.subrange(0, i as int),
                    partial@,
                ),
            decreases n - i,
        {
            let ghost before = names@;
            assert(self@.1.subrange(0, i + 1).drop_last() =~= self@.1.subrange(0, i as int));
            match map_get_index(&self.skills, i) {
                Some((name, _)) => {
                    if starts_with(name.as_str(), partial) {
                        names.push(name.clone());
                        assert(names@.map_values(|s: String| s@) =~= before.map_values(
                            |s: String| s@,
                        ).push(name@));
                    }
                },
                None => {},
            }
            i = i + 1;
        }
        assert(self@.1.subrange(0, n as int) =~= self@.1);
        names
    }
}

/// The names among `entries` that start with `prefix`, in order.
pub open spec fn names_with_prefix(entries: Seq<(Seq<char>, usize)>, prefix: Seq<char>) -> Seq<Seq<char>>
    decreases entries.len(),
{
    if entries.len() == 0 {
        Seq::empty()
    } else if has_prefix(entries.last().0, prefix) {
        names_with_prefix(entries.drop_last(), prefix).push(entries.last().0)
    } else {
        names_with_prefix(entries.drop_last(), prefix)
    }
}

/// Every name listed is the name of an entry, and with distinct names none is listed
/// twice.
pub proof fn lemma_names_with_prefix(entries: Seq<(Seq<char>, usize)>, prefix: Seq<char>)
    ensures
        forall|i: int|
            0 <= i < names_with_prefix(entries, prefix).len() ==> exists|j: int|
                0 <= j < entries.len() && #[trigger] names_with_prefix(entries, prefix)[i]
                    == entries[j].0,
        distinct_keys(entries) ==> names_with_prefix(entries, prefix).no_duplicates(),
    decreases entries.len(),
{
    if entries.len() > 0 {
        let rest = entries.drop_last();
        lemma_names_with_prefix(rest, prefix);
        let names = names_with_prefix(entries, prefix);
        let rest_names = names_with_prefix(rest, prefix);
        assert forall|i: int| 0 <= i < names.len() implies exists|j: int|
            0 <= j < entries.len() && #[trigger] names[i] == entries[j].0 by {
            if i < rest_names.len() {
                let j = choose|j: int| 0 <= j < rest.len() && rest_names[i] == rest[j].0;
                assert(names[i] == rest_names[i]);
                assert(entries[j] == rest[j]);
            } else {
                assert(names[i] == entries[entries.len() - 1].0);
            }
        }
        if distinct_keys(entries) {
            assert(distinct_keys(rest)) by {
                assert forall|a: int, b: int|
                    0 <= a < rest.len() && 0 <= b < rest.len() && a != b implies rest[a].0
                    != rest[b].0 by {
                    assert(entries[a] == rest[a]);
                    assert(entries[b] == rest[b]);
                }
            }
            assert forall|a: int, b: int|
                0 <= a < names.len() && 0 <= b < names.len() && a != b implies names[a]
                != names[b] by {
                if a < rest_names.len() && b < rest_names.len() {
                    assert(names[a] == rest_names[a]);
                    assert(names[b] == rest_names[b]);
                } else {
                    let last = entries.len() - 1;
                    let k = if a < rest_names.len() {
                        a
                    } else {
                        b
                    };
                    assert(k < rest_names.len());
                    let j = choose|j: int| 0 <= j < rest.len() && rest_names[k] == rest[j].0;
                    assert(entries[j] == rest[j]);
                    assert(entries[j].0 != entries[last].0);
                    assert(names[k] == rest_names[k]);
                }
            }
        }
    }
}

/// Why a request against the session was refused.
#[derive(Debug, PartialEq, Eq)]
pub enum CommandError {
    /// No character sheets have been loaded.
    NotLoaded,
    /// The named player has no sheet.
    UnknownPlayer(String),
    /// The player's sheet has no such skill or status.
    UnknownSkill(String),
    /// The named operator is none of `+`, `-`, `*`, `/`.
    InvalidOperator(String),
}

/// The sheets of a session, by player name, once some have been loaded.
pub struct Session {
    pub loaded: bool,
    pub players: StringHashMap<PlayerSheet>,
}

/// The sheets by player name that loading `sheets` in order gives: a later sheet of the
/// same player replaces an earlier one.
pub open spec fn roster_of(sheets: Seq<(String, PlayerSheet)>) -> Map<Seq<char>, (Seq<char>, Seq<(Seq<char>, usize)>)>
    decreases sheets.len(),
{
    if sheets.len() == 0 {
        Map::empty()
    } else {
        roster_of(sheets.drop_last()).insert(sheets.last().0@, sheets.last().1@)
    }
}

/// After a load, a player's sheet is the last one listed for that player.
pub proof fn lemma_load_keeps_last_sheet(sheets: Seq<(String, PlayerSheet)>, i: int)
    requires
        0 <= i < sheets.len(),
        forall|j: int| i < j < sheets.len() ==> (#[trigger] sheets[j]).0@ != sheets[i].0@,
    ensures
        roster_of(sheets).contains_key(sheets[i].0@),
        roster_of(sheets)[sheets[i].0@] == sheets[i].1@,
    decreases sheets.len(),
{
    if i < sheets.len() - 1 {
        assert(sheets[sheets.len() - 1].0@ != sheets[i].0@);
        assert forall|j: int| i < j < sheets.drop_last().len() implies (#[trigger] sheets.drop_last()[j]).0@
            != sheets.drop_last()[i].0@ by {
            assert(sheets[j].0@ != sheets[i].0@);
        }
        lemma_load_keeps_last_sheet(sheets.drop_last(), i);
    }
}

/// A player not listed in a load has no sheet after it.
pub proof fn lemma_load_unlisted(sheets: Seq<(String, PlayerSheet)>, user: Seq<char>)
    requires
        forall|j: int| 0 <= j < sheets.len() ==> (#[trigger] sheets[j]).0@ != user,
    ensures
        !roster_of(sheets).contains_key(user),
    decreases sheets.len(),
{
    if sheets.len() > 0 {
        assert(sheets[sheets.len() - 1].0@ != user);
        assert forall|j: int| 0 <= j < sheets.drop_last().len() implies (#[trigger] sheets.drop_last()[j]).0@
            != user by {
            assert(sheets[j].0@ != user);
        }
        lemma_load_unlisted(sheets.drop_last(), user);
    }
}

/// The line that reports a loaded sheet.
pub open spec fn load_line(player: Seq<char>, character: Seq<char>) -> Seq<char> {
    player + ": **"@ + character + "**"@
}

/// The report of a load: one line per sheet, in order, separated by line breaks.
pub open spec fn load_text(sheets: Seq<(String, PlayerSheet)>) -> Seq<char>
    decreases sheets.len(),
{
    if sheets.len() == 0 {
        Seq::empty()
    } else if sheets.len() == 1 {
        load_line(sheets[0].0@, sheets[0].1@.0)
    } else {
        load_text(sheets.drop_last()) + "\n"@ + load_line(sheets.last().0@, sheets.last().1@.0)
    }
}

/// Where the line of the `i`-th sheet starts in a load's report: after the lines of the
/// sheets before it, each followed by one line break.
pub open spec fn line_start(sheets: Seq<(String, PlayerSheet)>, i: int) -> int
    decreases i,
{
    if i <= 0 {
        0
    } else {
        line_start(sheets, i - 1) + load_line(sheets[i - 1].0@, sheets[i - 1].1@.0).len() + 1
    }
}

proof fn lemma_line_start_positive(sheets: Seq<(String, PlayerSheet)>, i: int)
    ensures
        line_start(sheets, i) >= 0,
        i > 0 ==> line_start(sheets, i) >= 1,
    decreases i,
{
    if i > 0 {
        lemma_line_start_positive(sheets, i - 1);
    }
}

proof fn lemma_line_start_prefix(sheets: Seq<(String, PlayerSheet)>, i: int)
    requires
        sheets.len() > 0,
        0 <= i < sheets.len(),
    ensures
        line_start(sheets, i) == line_start(sheets.drop_last(), i),
    decreases i,
{
    if i > 0 {
        lemma_line_start_prefix(sheets, i - 1);
        assert(sheets.drop_last()[i - 1] == sheets[i - 1]);
    }
}

/// A load's report holds one line for every sheet, in the order given: the line of the
/// `i`-th sheet stands where the lines before it and their line breaks end, a line
/// break comes before it unless it is the first, and the report ends with the line of
/// the last sheet.
pub proof fn lemma_load_report_lines(sheets: Seq<(String, PlayerSheet)>, i: int)
    requires
        0 <= i < sheets.len(),
    ensures
        ({
            let report = load_text(sheets);
            let start = line_start(sheets, i);
            let line = load_line(sheets[i].0@, sheets[i].1@.0);
            &&& start + line.len() <= report.len()
            &&& report.subrange(start, start + line.len()) == line
            &&& i > 0 ==> report[start - 1] == '\n'
            &&& i == sheets.len() - 1 ==> report.len() == start + line.len()
        }),
    decreases sheets.len(),
{
    let report = load_text(sheets);
    let start = line_start(sheets, i);
    let line = load_line(sheets[i].0@, sheets[i].1@.0);
    if sheets.len() == 1 {
        assert(report.subrange(start, start + line.len()) =~= line);
    } else {
        let rest = sheets.drop_last();
        let n = sheets.len() - 1;
        let last = load_line(sheets.last().0@, sheets.last().1@.0);
        reveal_strlit("\n");
        assert(sheets.last() == sheets[n]);
        assert(report == load_text(rest) + "\n"@ + last);
        lemma_load_report_lines(rest, n - 1);
        lemma_line_start_prefix(sheets, n - 1);
        assert(rest[n - 1] == sheets[n - 1]);
        let head_len = load_text(rest).len();
        assert(head_len == line_start(sheets, n - 1) + load_line(sheets[n - 1].0@, sheets[n
            - 1].1@.0).len());
        if i == n {
            assert(start == head_len + 1);
            assert(report.subrange(start, start + line.len()) =~= line);
            assert(report[start - 1] == '\n');
        } else {
            lemma_load_report_lines(rest, i);
            lemma_line_start_prefix(sheets, i);
            assert(rest[i] == sheets[i]);
            let inner = load_text(rest);
            lemma_line_start_positive(sheets, i);
            assert(report.subrange(start, start + line.len()) =~= inner.subrange(
                start,
                start + line.len(),
            ));
            if i > 0 {
                assert(report[start - 1] == inner[start - 1]);
            }
        }
    }
}

/// Loading no sheets reports nothing.
pub proof fn lemma_load_report_empty(sheets: Seq<(String, PlayerSheet)>)
    requires
        sheets.len() == 0,
    ensures
        load_text(sheets) == Seq::<char>::empty(),
{
}

impl Session {
    /// The sheets by player name.
    pub open spec fn roster(&self) -> Map<Seq<char>, (Seq<char>, Seq<(Seq<char>, usize)>)> {
        self.players@.map_values(|s: PlayerSheet| s@)
    }

    /// The value of `user`'s skill `skill`, if sheets are loaded and the user's has it.
    pub open spec fn skill_of(&self, user: Seq<char>, skill: Seq<char>) -> Option<usize> {
        if self.loaded && self.roster().contains_key(user) {
            lookup(self.roster()[user].1, skill)
        } else {
            None
        }
    }

    /// A request for `user`'s `skill` with an optional operator text passes every check.
    pub open spec fn accepts(&self, user: Seq<char>, skill: Seq<char>, operator: Option<Seq<char>>) -> bool {
        &&& self.skill_of(user, skill) is Some
        &&& operator matches Some(o) ==> operator_of(o) is Some
    }

    /// `e` is the refusal due to a request for `user`'s `skill` with an optional
    /// operator text: the checks run in the order loaded sheets, the user's sheet, the
    /// skill, the operator, and the first that fails decides.
    pub open spec fn refused_with(
        &self,
        e: CommandError,
        user: Seq<char>,
        skill: Seq<char>,
        operator: Option<Seq<char>>,
    ) -> bool {
        match e {
            CommandError::NotLoaded => !self.loaded,
            CommandError::UnknownPlayer(n) => self.loaded && !self.roster().contains_key(user) && n@
                == user,
            CommandError::UnknownSkill(n) => self.loaded && self.roster().contains_key(user)
                && self.skill_of(user, skill) is None && n@ == skill,
            CommandError::InvalidOperator(n) => self.skill_of(user, skill) is Some && (operator matches Some(
                o,
            ) && operator_of(o) is None && n@ == o),
        }
    }

    /// A session with nothing loaded.
    pub fn new() -> (s: Session)
        ensures
            !s.loaded,
            s.roster() == Map::<Seq<char>, (Seq<char>, Seq<(Seq<char>, usize)>)>::empty(),
    {
        let s = Session { loaded: false, players: StringHashMap::new() };
        assert(s.roster() =~= Map::<Seq<char>, (Seq<char>, Seq<(Seq<char>, usize)>)>::empty());
        s
    }

    /// Replaces the loaded sheets by `sheets` (player name and sheet) and reports them.
    pub fn load(&mut self, sheets: &Vec<(String, PlayerSheet)>) -> (report: String)
        ensures
            final(self).loaded,
            final(self).roster() == roster_of(sheets@),
            report@ == load_text(sheets@),
    {
        let mut players: StringHashMap<PlayerSheet> = StringHashMap::new();
        let mut report = String::new();
        let mut i: usize = 0;
        while i < sheets.len()
            invariant
                i <= sheets.len(),
                players@.map_values(|s: PlayerSheet| s@) == roster_of(sheets@.subrange(0, i as int)),
                report@ == load_text(sheets@.subrange(0, i as int)),
            decreases sheets.len() - i,
        {
            let ghost prefix = sheets@.subrange(0, i as int);
            let ghost next = sheets@.subrange(0, i + 1);
            assert(next.drop_last() =~= prefix);
            assert(next.last() == sheets@[i as int]);
            let entry = &sheets[i];
            if i > 0 {
                report.append("\n");
            }
            report.append(entry.0.as_str());
            report.append(": **");
            report.append(entry.1.character.as_str());
            report.append("**");
            assert(report@ =~= load_text(next));
            let ghost old_players = players@;
            players.insert(entry.0.clone(), entry.1.duplicate());
            assert(players@.map_values(|s: PlayerSheet| s@) =~= old_players.map_values(
                |s: PlayerSheet| s@,
            ).insert(entry.0@, entry.1@));
            i = i + 1;
        }
        assert(sheets@.subrange(0, i as int) =~= sheets@);
        self.players = players;
        self.loaded = true;
        report
    }

    /// The sheet of `user`.
    pub fn sheet(&self, user: &str) -> (r: Result<&PlayerSheet, CommandError>)
        ensures
            match r {
                Ok(s) => self.loaded && self.roster().contains_key(user@) && s@ == self.roster()[user@],
                Err(CommandError::NotLoaded) => !self.loaded,
                Err(CommandError::UnknownPlayer(n)) => self.loaded && !self.roster().contains_key(
                    user@,
                ) && n@ == user@,
                Err(_) => false,
            },
    {
        if !self.loaded {
            return Err(CommandError::NotLoaded);
        }
        match self.players.get(user) {
            Some(s) => Ok(s),
            None => Err(CommandError::UnknownPlayer(String::from_str(user))),
        }
    }

    /// The value that `user`'s skill roll of `skill_name` is made against, checking
    /// in order that sheets are loaded, that the user has one, that it has the skill and
    /// that a given operator is valid.
    pub fn skill_roll(&self, user: &str, skill_name: &str, operator: &Option<String>) -> (r: Result<usize, CommandError>)
        ensures
            match r {
                Ok(v) => self.accepts(user@, skill_name@, opt_text(operator)) && self.skill_of(
                    user@,
                    skill_name@,
                ) == Some(v),
                Err(e) => self.refused_with(e, user@, skill_name@, opt_text(operator)),
            },
    {
        let sheet = self.sheet(user)?;
        let value = match sheet.skill_value(skill_name) {
            Some(v) => v,
            None => {
                return Err(CommandError::UnknownSkill(String::from_str(skill_name)));
            },
        };
        match operator {
            Some(o) => match parse_operator(o.as_str()) {
                Some(_) => Ok(value),
                None => Err(CommandError::InvalidOperator(o.clone())),
            },
            None => Ok(value),
        }
    }

    /// Corrects `user`'s status `status_name` by `operator` and `corr` with saturating
    /// arithmetic, checking as `skill_roll` does; on success gives the values before and
    /// after, and on refusal changes nothing.
    pub fn set_status(&mut self, user: &str, status_name: &str, operator: &str, corr: usize) -> (r: Result<(usize, usize), CommandError>)
        requires
            old(self).skill_of(user@, status_name@) is Some && operator_of(operator@) == Some(
                Operator::Div,
            ) ==> corr != 0,
        ensures
            match r {
                Ok((before, after)) => {
                    &&& old(self).skill_of(user@, status_name@) == Some(before)
                    &&& (operator_of(operator@) matches Some(op) && after == saturated(
                        before as int,
                        op,
                        corr as int,
                    ))
                    &&& final(self).loaded
                    &&& final(self).skill_of(user@, status_name@) == Some(after)
                    &&& forall|u: Seq<char>, k: Seq<char>|
                        !(u == user@ && k == status_name@) ==> #[trigger] final(self).skill_of(u, k)
                            == old(self).skill_of(u, k)
                    &&& final(self).roster() == old(self).roster().insert(
                        user@,
                        (
                            old(self).roster()[user@].0,
                            insert_entry(old(self).roster()[user@].1, status_name@, after),
                        ),
                    )
                },
                Err(e) => {
                    &&& final(self).loaded == old(self).loaded
                    &&& final(self).roster() == old(self).roster()
                    &&& old(self).refused_with(e, user@, status_name@, Some(operator@))
                },
            },
    {
        let (character, mut skills, before) = {
            let sheet = self.sheet(user)?;
            proof {
                use_type_invariant(sheet);
            }
            let before = match sheet.skill_value(status_name) {
                Some(v) => v,
                None => {
                    return Err(CommandError::UnknownSkill(String::from_str(status_name)));
                },
            };
            (sheet.character.clone(), map_clone(&sheet.skills), before)
        };
        let op = match parse_operator(operator) {
            Some(op) => op,
            None => {
                return Err(CommandError::InvalidOperator(String::from_str(operator)));
            },
        };
        let after = saturating_correction(before, op, corr);
        let ghost old_entries = skill_entries(skills);
        map_insert(&mut skills, String::from_str(status_name), after);
        proof {
            lemma_insert_distinct(old_entries, status_name@, after);
        }
        let ghost old_players = self.players@;
        self.players.insert(String::from_str(user), PlayerSheet { character, skills });
        assert(self.players@.map_values(|s: PlayerSheet| s@) =~= old_players.map_values(
            |s: PlayerSheet| s@,
        ).insert(user@, (old(self).roster()[user@].0, insert_entry(old(self).roster()[user@].1, status_name@, after))));
        proof {
            lemma_write_then_read(*old(self), *self, user@, status_name@, after);
        }
        Ok((before, after))
    }

    /// The names of `user`'s skills that start with `partial`, in the sheet's order;
    /// sheets must be loaded and the user must have one.
    pub fn skill_names_for(&self, user: &str, partial: &str) -> (names: Vec<String>)
        requires
            self.loaded,
            self.roster().contains_key(user@),
        ensures
            names@.map_values(|s: String| s@) == names_with_prefix(self.roster()[user@].1, partial@),
            names@.map_values(|s: String| s@).no_duplicates(),
    {
        match self.players.get(user) {
            Some(sheet) => sheet.skill_names_starting_with(partial),
            None => Vec::new(),
        }
    }
}

/// Writing a value into a player's skill table and then reading: the written skill
/// gives the written value, and every other player and skill gives what it gave before.
pub proof fn lemma_write_then_read(
    before: Session,
    after: Session,
    user: Seq<char>,
    skill: Seq<char>,
    value: usize,
)
    requires
        before.loaded,
        before.roster().contains_key(user),
        after.loaded,
        after.roster() == before.roster().insert(
            user,
            (before.roster()[user].0, insert_entry(before.roster()[user].1, skill, value)),
        ),
    ensures
        after.skill_of(user, skill) == Some(value),
        forall|u: Seq<char>, k: Seq<char>|
            !(u == user && k == skill) ==> #[trigger] after.skill_of(u, k) == before.skill_of(u, k),
{
    lemma_lookup_insert(before.roster()[user].1, skill, value, skill);
    assert forall|u: Seq<char>, k: Seq<char>|
        !(u == user && k == skill) implies #[trigger] after.skill_of(u, k) == before.skill_of(u, k) by {
        lemma_lookup_insert(before.roster()[user].1, skill, value, k);
    }
}

/// Correcting a status and then correcting it back to its old value restores every
/// sheet exactly: the character, the entries and their order, and the players present.
pub proof fn lemma_set_then_restore(
    start: Session,
    middle: Session,
    end: Session,
    user: Seq<char>,
    skill: Seq<char>,
    changed: usize,
)
    requires
        start.loaded,
        start.skill_of(user, skill) is Some,
        middle.roster() == start.roster().insert(
            user,
            (start.roster()[user].0, insert_entry(start.roster()[user].1, skill, changed)),
        ),
        end.roster() == middle.roster().insert(
            user,
            (
                middle.roster()[user].0,
                insert_entry(middle.roster()[user].1, skill, start.skill_of(user, skill).unwrap()),
            ),
        ),
    ensures
        end.roster() == start.roster(),
{
    lemma_write_back_restores(
        start.roster()[user].1,
        skill,
        start.skill_of(user, skill).unwrap(),
        changed,
    );
    assert(end.roster() =~= start.roster());
}

/// The text that explains a refusal.
pub open spec fn error_text(e: CommandError) -> Seq<char> {
    match e {
        CommandError::NotLoaded => "キャラクターシートが読み込まれていません．\n`/load`でロードしてください．"@,
        CommandError::UnknownPlayer(n) => "**"@ + n@
            + "**のデータは読み込まれていません．\nユーザーのキャラクターシートを作成し，`/load`で再ロードしてください．"@,
        CommandError::UnknownSkill(n) => "**"@ + n@ + "**に該当する技能がありません．"@,
        CommandError::InvalidOperator(n) => "無効な演算子: **"@ + n@ + "** が入力されています．"@,
    }
}

/// The text that explains a refusal.
pub fn error_description(e: &CommandError) -> (msg: String)
    ensures
        msg@ == error_text(*e),
{
    match e {
        CommandError::NotLoaded => String::from_str(
            "キャラクターシートが読み込まれていません．\n`/load`でロードしてください．",
        ),
        CommandError::UnknownPlayer(n) => {
            let mut msg = String::from_str("**");
            msg.append(n.as_str());
            msg.append(
                "**のデータは読み込まれていません．\nユーザーのキャラクターシートを作成し，`/load`で再ロードしてください．",
            );
            msg
        },
        CommandError::UnknownSkill(n) => {
            let mut msg = String::from_str("**");
            msg.append(n.as_str());
            msg.append("**に該当する技能がありません．");
            msg
        },
        CommandError::InvalidOperator(n) => {
            let mut msg = String::from_str("無効な演算子: **");
            msg.append(n.as_str());
            msg.append("** が入力されています．");
            msg
        },
    }
}

/// The status names offered to users, in the order they are offered.
pub open spec fn status_names_spec() -> Seq<Seq<char>> {
    seq![
        "STR"@,
        "CON"@,
        "SIZ"@,
        "DEX"@,
        "APP"@,
        "INT"@,
        "POW"@,
        "EDU"@,
        "SAN"@,
        "MP"@,
        "幸運"@,
        "耐久力"@,
    ]
}

/// The status names offered to users.
pub fn status_names() -> (names: Vec<String>)
    ensures
        names@.map_values(|s: String| s@) == status_names_spec(),
{
    let names = vec![
        String::from_str("STR"),
        String::from_str("CON"),
        String::from_str("SIZ"),
        String::from_str("DEX"),
        String::from_str("APP"),
        String::from_str("INT"),
        String::from_str("POW"),
        String::from_str("EDU"),
        String::from_str("SAN"),
        String::from_str("MP"),
        String::from_str("幸運"),
        String::from_str("耐久力"),
    ];
    assert(names@.map_values(|s: String| s@) =~= status_names_spec());
    names
}

/// The lines of a status listing for `entries`, each on a line of its own after the
/// heading.
pub open spec fn status_lines(entries: Seq<(Seq<char>, usize)>) -> Seq<char>
    decreases entries.len(),
{
    if entries.len() == 0 {
        Seq::empty()
    } else {
        status_lines(entries.drop_last()) + "\n"@ + entries.last().0 + ": "@ + decimal(
            entries.last().1 as nat,
        )
    }
}

/// The text that shows a player's sheet: the player and character, then each skill with
/// its value in the sheet's order.
pub open spec fn status_text(player: Seq<char>, sheet: (Seq<char>, Seq<(Seq<char>, usize)>)) -> Seq<char> {
    "`ステータス / "@ + player + ": "@ + sheet.0 + "`"@ + status_lines(sheet.1)
}

/// The message that shows `player`'s sheet.
pub fn status_msg(player: &str, sheet: &PlayerSheet) -> (msg: String)
    ensures
        msg@ == status_text(player@, sheet@),
{
    let mut msg = String::from_str("`ステータス / ");
    msg.append(player);
    msg.append(": ");
    msg.append(sheet.character.as_str());
    msg.append("`");
    let ghost head = msg@;
    let n = map_len(&sheet.skills);
    let mut i: usize = 0;
    while i < n
        invariant
            i <= n,
            n == sheet@.1.len(),
            msg@ == head + status_lines(sheet@.1.subrange(0, i as int)),
        decreases n - i,
    {
        assert(sheet@.1.subrange(0, i + 1).drop_last() =~= sheet@.1.subrange(0, i as int));
        match map_get_index(&sheet.skills, i) {
            Some((name, value)) => {
                msg.append("\n");
                msg.append(name.as_str());
                msg.append(": ");
                push_decimal(&mut msg, value);
                assert(msg@ =~= head + status_lines(sheet@.1.subrange(0, i + 1)));
            },
            None => {},
        }
        i = i + 1;
    }
    assert(sheet@.1.subrange(0, n as int) =~= sheet@.1);
    msg
}

} // verus!
