//! Structured description of an overlap violation: the window that was
//! rejected and the pre-existing window it collided with, together with the
//! parser that extracts the pair from the storage engine's free-text
//! diagnostic message.

use vstd::prelude::*;

use crate::datetime::{parse_datetime_range, wire_datetime_secs, wire_datetime_valid};
use crate::strutil::{str_eq, subvec, to_chars};

verus! {

/// One `(resource id, [start, end))` pair of a conflict report. `start` and
/// `end` are UTC seconds since the epoch.
#[derive(Debug)]
pub struct ReservationWindow {
    pub rid: String,
    pub start: i64,
    pub end: i64,
}

pub struct WindowView {
    pub rid: Seq<char>,
    pub start: int,
    pub end: int,
}

impl View for ReservationWindow {
    type V = WindowView;

    open spec fn view(&self) -> WindowView {
        WindowView { rid: self.rid@, start: self.start as int, end: self.end as int }
    }
}

impl PartialEq for ReservationWindow {
    fn eq(&self, other: &Self) -> (r: bool) {
        self.rid == other.rid && self.start == other.start && self.end == other.end
    }
}

impl vstd::std_specs::cmp::PartialEqSpecImpl for ReservationWindow {
    open spec fn obeys_eq_spec() -> bool {
        true
    }

    open spec fn eq_spec(&self, other: &Self) -> bool {
        self@ == other@
    }
}

/// The two colliding windows of a rejected insert: `a` is the window that was
/// refused, `b` the window it collided with.
#[derive(Debug)]
pub struct ReservationConflict {
    pub a: ReservationWindow,
    pub b: ReservationWindow,
}

pub struct ConflictView {
    pub a: WindowView,
    pub b: WindowView,
}

impl View for ReservationConflict {
    type V = ConflictView;

    open spec fn view(&self) -> ConflictView {
        ConflictView { a: self.a@, b: self.b@ }
    }
}

impl PartialEq for ReservationConflict {
    fn eq(&self, other: &Self) -> (r: bool) {
        self.a == other.a && self.b == other.b
    }
}

impl vstd::std_specs::cmp::PartialEqSpecImpl for ReservationConflict {
    open spec fn obeys_eq_spec() -> bool {
        true
    }

    open spec fn eq_spec(&self, other: &Self) -> bool {
        self@ == other@
    }
}

/// A conflict report: structured when the diagnostic message could be parsed,
/// otherwise the raw message, so that a drift of the message format degrades
/// to a usable-but-unstructured error instead of a failure.
#[derive(Debug)]
pub enum ReservationConflictInfo {
    Parsed(ReservationConflict),
    Unparsed(String),
}

pub enum ConflictInfoView {
    Parsed(ConflictView),
    Unparsed(Seq<char>),
}

impl View for ReservationConflictInfo {
    type V = ConflictInfoView;

    open spec fn view(&self) -> ConflictInfoView {
        match self {
            ReservationConflictInfo::Parsed(c) => ConflictInfoView::Parsed(c@),
            ReservationConflictInfo::Unparsed(s) => ConflictInfoView::Unparsed(s@),
        }
    }
}

impl PartialEq for ReservationConflictInfo {
    fn eq(&self, other: &Self) -> (r: bool) {
        match (self, other) {
            (ReservationConflictInfo::Parsed(c1), ReservationConflictInfo::Parsed(c2)) => *c1
                == *c2,
            (
                ReservationConflictInfo::Unparsed(s1),
                ReservationConflictInfo::Unparsed(s2),
            ) => *s1 == *s2,
            _ => false,
        }
    }
}

impl vstd::std_specs::cmp::PartialEqSpecImpl for ReservationConflictInfo {
    open spec fn obeys_eq_spec() -> bool {
        true
    }

    open spec fn eq_spec(&self, other: &Self) -> bool {
        self@ == other@
    }
}

/// The classes of characters the diagnostic grammar distinguishes: key and
/// value words, bare alphanumerics, whitespace, and the characters allowed
/// inside a range literal (everything but the two closers).
#[derive(Clone, Copy, Debug, PartialEq, Eq, Structural)]
pub enum CharClass {
    Word,
    Alnum,
    Space,
    Raw,
}

pub open spec fn spec_is_alnum(c: char) -> bool {
    48 <= c as u32 <= 57 || 65 <= c as u32 <= 90 || 97 <= c as u32 <= 122
}

pub open spec fn spec_is_word_char(c: char) -> bool {
    spec_is_alnum(c) || c == '_' || c == '-'
}

pub open spec fn spec_is_space(c: char) -> bool {
    c == ' ' || c == '\t' || c == '\n' || c == '\r'
}

pub open spec fn in_class(c: char, k: CharClass) -> bool {
    match k {
        CharClass::Word => spec_is_word_char(c),
        CharClass::Alnum => spec_is_alnum(c),
        CharClass::Space => spec_is_space(c),
        CharClass::Raw => c != ')' && c != ']',
    }
}

fn char_in_class(c: char, k: CharClass) -> (r: bool)
    ensures
        r == in_class(c, k),
{
    let u: u32 = c as u32;
    match k {
        CharClass::Word => (48 <= u && u <= 57) || (65 <= u && u <= 90) || (97 <= u && u <= 122)
            || c == '_' || c == '-',
        CharClass::Alnum => (48 <= u && u <= 57) || (65 <= u && u <= 90) || (97 <= u && u <= 122),
        CharClass::Space => c == ' ' || c == '\t' || c == '\n' || c == '\r',
        CharClass::Raw => c != ')' && c != ']',
    }
}

/// The first position at or after `i` whose character leaves the class, or
/// the end of the sequence.
pub open spec fn run_end(s: Seq<char>, i: int, k: CharClass) -> int
    decreases s.len() - i,
{
    if 0 <= i < s.len() && in_class(s[i], k) {
        run_end(s, i + 1, k)
    } else {
        i
    }
}

fn scan_run(v: &Vec<char>, start: usize, k: CharClass) -> (r: usize)
    requires
        start <= v@.len(),
    ensures
        r == run_end(v@, start as int, k),
        start <= r <= v@.len(),
{
    let n: usize = v.len();
    let mut i: usize = start;
    while i < n
        invariant
            start <= i <= n,
            n == v@.len(),
            run_end(v@, start as int, k) == run_end(v@, i as int, k),
        decreases n - i,
    {
        if !char_in_class(v[i], k) {
            return i;
        }
        i += 1;
    }
    i
}

/// One key/value group of the diagnostic message, in the shape
/// `(key1, key2)=(value1, [value2`: two keys, a one-or-two-word first value,
/// and a range literal opened by `[` as the second value.
#[derive(Debug)]
pub struct KvGroup {
    pub k1: String,
    pub v1: String,
    pub k2: String,
    pub v2: String,
}

pub struct GroupView {
    pub k1: Seq<char>,
    pub v1: Seq<char>,
    pub k2: Seq<char>,
    pub v2: Seq<char>,
}

impl View for KvGroup {
    type V = GroupView;

    open spec fn view(&self) -> GroupView {
        GroupView { k1: self.k1@, v1: self.v1@, k2: self.k2@, v2: self.v2@ }
    }
}

/// The group starting at position `i`, if the text there has the group shape:
/// `(` key1 `,` spaces key2 `)=(` value1 `,` spaces `[` value2, where key1 is
/// a run of word characters, key2 a run of alphanumerics, value1 one word or
/// two separated by whitespace, and value2 runs to the first `)` or `]`. The
/// returned position is where the group ends.
pub open spec fn group_at(s: Seq<char>, i: int) -> Option<(GroupView, int)> {
    if !(0 <= i < s.len() && s[i] == '(') {
        None
    } else {
        let k1s = i + 1;
        let k1e = run_end(s, k1s, CharClass::Word);
        if k1e == k1s || !(k1e < s.len() && s[k1e] == ',') {
            None
        } else {
            let k2s = run_end(s, k1e + 1, CharClass::Space);
            let k2e = run_end(s, k2s, CharClass::Alnum);
            if k2e == k2s || !(k2e + 2 < s.len() && s[k2e] == ')' && s[k2e + 1] == '=' && s[k2e
                + 2] == '(') {
                None
            } else {
                let v1s = k2e + 3;
                let w1e = run_end(s, v1s, CharClass::Word);
                if w1e == v1s {
                    None
                } else {
                    let spe = run_end(s, w1e, CharClass::Space);
                    let w2e = run_end(s, spe, CharClass::Word);
                    let v1e = if w2e > spe {
                        w2e
                    } else {
                        w1e
                    };
                    if !(v1e < s.len() && s[v1e] == ',') {
                        None
                    } else {
                        let v2s = run_end(s, v1e + 1, CharClass::Space);
                        if !(v2s < s.len() && s[v2s] == '[') {
                            None
                        } else {
                            let v2e = run_end(s, v2s + 1, CharClass::Raw);
                            if v2e == v2s + 1 {
                                None
                            } else {
                                Some(
                                    (
                                        GroupView {
                                            k1: s.subrange(k1s, k1e),
                                            v1: s.subrange(v1s, v1e),
                                            k2: s.subrange(k2s, k2e),
                                            v2: s.subrange(v2s, v2e),
                                        },
                                        v2e,
                                    ),
                                )
                            }
                        }
                    }
                }
            }
        }
    }
}

/// Matches one group at position `i` of `v` (the characters of `s`), handing
/// back the group's text and its end position.
fn try_group(s: &str, v: &Vec<char>, i: usize) -> (r: Option<(KvGroup, usize)>)
    requires
        v@ == s@,
        i < v@.len(),
    ensures
        match r {
            Some(ge) => group_at(v@, i as int) == Some((ge.0@, ge.1 as int)) && i < ge.1 <= v@.len(),
            None => group_at(v@, i as int) is None,
        },
{
    let n: usize = v.len();
    if v[i] != '(' {
        return None;
    }
    let k1s = i + 1;
    let k1e = scan_run(v, k1s, CharClass::Word);
    if k1e == k1s || k1e >= n || v[k1e] != ',' {
        return None;
    }
    let k2s = scan_run(v, k1e + 1, CharClass::Space);
    let k2e = scan_run(v, k2s, CharClass::Alnum);
    if k2e == k2s || n - k2e < 3 || v[k2e] != ')' || v[k2e + 1] != '=' || v[k2e + 2] != '(' {
        return None;
    }
    let v1s = k2e + 3;
    let w1e = scan_run(v, v1s, CharClass::Word);
    if w1e == v1s {
        return None;
    }
    let spe = scan_run(v, w1e, CharClass::Space);
    let w2e = scan_run(v, spe, CharClass::Word);
    let v1e = if w2e > spe {
        w2e
    } else {
        w1e
    };
    if v1e >= n || v[v1e] != ',' {
        return None;
    }
    let v2s = scan_run(v, v1e + 1, CharClass::Space);
    if v2s >= n || v[v2s] != '[' {
        return None;
    }
    let v2e = scan_run(v, v2s + 1, CharClass::Raw);
    if v2e == v2s + 1 {
        return None;
    }
    let g = KvGroup {
        k1: s.substring_char(k1s, k1e).to_owned(),
        v1: s.substring_char(v1s, v1e).to_owned(),
        k2: s.substring_char(k2s, k2e).to_owned(),
        v2: s.substring_char(v2s, v2e).to_owned(),
    };
    Some((g, v2e))
}

/// All groups of a message, found by trying each position and skipping past
/// each group found.
pub open spec fn scan_groups(s: Seq<char>, i: int) -> Seq<GroupView>
    decreases s.len() - i,
{
    if !(0 <= i < s.len()) {
        Seq::empty()
    } else {
        match group_at(s, i) {
            Some(ge) => {
                let next = if i < ge.1 <= s.len() {
                    ge.1
                } else {
                    i + 1
                };
                seq![ge.0] + scan_groups(s, next)
            },
            None => scan_groups(s, i + 1),
        }
    }
}

/// The exactly-two key/value groups of a conflict diagnostic: `a` describes
/// the rejected window, `b` the existing one.
#[derive(Debug)]
pub struct ParsedInfo {
    pub a: KvGroup,
    pub b: KvGroup,
}

impl ParsedInfo {
    /// Locates the key/value groups of a diagnostic message; a message with
    /// any other number of groups than two is refused.
    pub fn parse(s: &str) -> (r: Result<ParsedInfo, ()>)
        ensures
            match r {
                Ok(p) => scan_groups(s@, 0).len() == 2 && scan_groups(s@, 0)[0] == p.a@
                    && scan_groups(s@, 0)[1] == p.b@,
                Err(_) => scan_groups(s@, 0).len() != 2,
            },
    {
        let v = to_chars(s);
        let n: usize = v.len();
        let mut found: Vec<KvGroup> = Vec::new();
        let mut i: usize = 0;
        while i < n
            invariant
                v@ == s@,
                n == v@.len(),
                i <= n,
                scan_groups(s@, 0) == found@.map_values(|g: KvGroup| g@) + scan_groups(
                    s@,
                    i as int,
                ),
            decreases n - i,
        {
            match try_group(s, &v, i) {
                Some((g, end)) => {
                    proof {
                        assert(scan_groups(s@, i as int) == seq![g@] + scan_groups(s@, end as int));
                        assert((found@.push(g)).map_values(|g2: KvGroup| g2@) =~= found@.map_values(
                            |g2: KvGroup| g2@,
                        ).push(g@));
                        assert(found@.map_values(|g2: KvGroup| g2@) + (seq![g@] + scan_groups(
                            s@,
                            end as int,
                        )) =~= (found@.push(g)).map_values(|g2: KvGroup| g2@) + scan_groups(
                            s@,
                            end as int,
                        ));
                    }
                    found.push(g);
                    i = end;
                },
                None => {
                    i = i + 1;
                },
            }
        }
        proof {
            assert(scan_groups(s@, i as int) =~= Seq::<GroupView>::empty());
            assert(scan_groups(s@, 0) =~= found@.map_values(|g: KvGroup| g@));
        }
        if found.len() == 2 {
            let b = match found.pop() {
                Some(g) => g,
                None => {
                    return Err(());
                },
            };
            let a = match found.pop() {
                Some(g) => g,
                None => {
                    return Err(());
                },
            };
            Ok(ParsedInfo { a, b })
        } else {
            Err(())
        }
    }
}

impl KvGroup {
    /// The value under `key`: the first key of the group is consulted first.
    pub open spec fn spec_get(g: GroupView, key: Seq<char>) -> Option<Seq<char>> {
        if g.k1 == key {
            Some(g.v1)
        } else if g.k2 == key {
            Some(g.v2)
        } else {
            None
        }
    }

    pub fn get(&self, key: &str) -> (r: Option<String>)
        ensures
            match r {
                Some(val) => KvGroup::spec_get(self@, key@) == Some(val@),
                None => KvGroup::spec_get(self@, key@) is None,
            },
    {
        if str_eq(self.k1.as_str(), key) {
            Some(self.v1.clone())
        } else if str_eq(self.k2.as_str(), key) {
            Some(self.v2.clone())
        } else {
            None
        }
    }
}


/// The period value with every quote and opening bracket removed, keeping
/// the order of the remaining characters.
pub open spec fn strip_marks(s: Seq<char>) -> Seq<char>
    decreases s.len(),
{
    if s.len() == 0 {
        Seq::empty()
    } else {
        let rest = strip_marks(s.drop_last());
        if s.last() == '"' || s.last() == '[' {
            rest
        } else {
            rest.push(s.last())
        }
    }
}

fn strip_marks_exec(v: &Vec<char>) -> (r: Vec<char>)
    ensures
        r@ == strip_marks(v@),
{
    let n: usize = v.len();
    let mut out: Vec<char> = Vec::new();
    let mut i: usize = 0;
    while i < n
        invariant
            i <= n,
            n == v@.len(),
            out@ == strip_marks(v@.take(i as int)),
        decreases n - i,
    {
        let c = v[i];
        proof {
            assert(v@.take(i + 1).drop_last() =~= v@.take(i as int));
            assert(v@.take(i + 1).last() == v@[i as int]);
        }
        if !(c == '"' || c == '[') {
            out.push(c);
        }
        i += 1;
    }
    proof {
        assert(v@.take(n as int) =~= v@);
    }
    out
}

/// The position of the first comma, or the length where there is none.
pub open spec fn first_comma(s: Seq<char>) -> int
    decreases s.len(),
{
    if s.len() == 0 {
        0
    } else if s[0] == ',' {
        0
    } else {
        1 + first_comma(s.drop_first())
    }
}

pub proof fn lemma_first_comma(s: Seq<char>)
    ensures
        0 <= first_comma(s) <= s.len(),
        first_comma(s) < s.len() ==> s[first_comma(s)] == ',',
        forall|j: int| 0 <= j < first_comma(s) ==> s[j] != ',',
    decreases s.len(),
{
    if s.len() != 0 && s[0] != ',' {
        lemma_first_comma(s.drop_first());
        assert forall|j: int| 0 <= j < first_comma(s) implies s[j] != ',' by {
            if j >= 1 {
                assert(s[j] == s.drop_first()[j - 1]);
            }
        }
    }
}

fn find_comma(v: &Vec<char>) -> (r: usize)
    ensures
        r == first_comma(v@),
{
    let n: usize = v.len();
    let mut i: usize = 0;
    proof {
        lemma_first_comma(v@);
    }
    while i < n
        invariant
            i <= n,
            n == v@.len(),
            forall|j: int| 0 <= j < i ==> v@[j] != ',',
            0 <= first_comma(v@) <= v@.len(),
            first_comma(v@) < v@.len() ==> v@[first_comma(v@)] == ',',
            forall|j: int| 0 <= j < first_comma(v@) ==> v@[j] != ',',
        decreases n - i,
    {
        if v[i] == ',' {
            return i;
        }
        i += 1;
    }
    n
}

/// The position after the last character that is not whitespace; 0 where the
/// sequence is all whitespace.
pub open spec fn trim_end_idx(s: Seq<char>) -> int
    decreases s.len(),
{
    if s.len() == 0 {
        0
    } else if spec_is_space(s.last()) {
        trim_end_idx(s.drop_last())
    } else {
        s.len() as int
    }
}

/// The sequence with leading and trailing whitespace removed.
pub open spec fn trim_spec(s: Seq<char>) -> Seq<char> {
    let lo = run_end(s, 0, CharClass::Space);
    let hi = trim_end_idx(s);
    if lo >= hi {
        Seq::empty()
    } else {
        s.subrange(lo, hi)
    }
}

/// The bounds `[lo, hi)` of the whitespace-trimmed middle of `v`.
fn trim_bounds(v: &Vec<char>) -> (r: (usize, usize))
    ensures
        r.0 <= r.1 <= v@.len(),
        trim_spec(v@) == v@.subrange(r.0 as int, r.1 as int),
{
    let n: usize = v.len();
    let lo = scan_run(v, 0, CharClass::Space);
    let mut hi: usize = 0;
    let mut j: usize = 0;
    while j < n
        invariant
            j <= n,
            hi <= j,
            n == v@.len(),
            hi == trim_end_idx(v@.take(j as int)),
        decreases n - j,
    {
        proof {
            assert(v@.take(j + 1).drop_last() =~= v@.take(j as int));
            assert(v@.take(j + 1).last() == v@[j as int]);
        }
        if !char_in_class(v[j], CharClass::Space) {
            hi = j + 1;
        }
        j += 1;
    }
    proof {
        assert(v@.take(n as int) =~= v@);
    }
    if lo >= hi {
        (0, 0)
    } else {
        (lo, hi)
    }
}

/// The two instants of a period value: marks stripped, split at the first
/// comma, both halves trimmed and read as wire-format timestamps.
pub open spec fn spec_window_times(period: Seq<char>) -> Option<(int, int)> {
    let cleaned = strip_marks(period);
    let c = first_comma(cleaned);
    if c >= cleaned.len() {
        None
    } else {
        let p1 = trim_spec(cleaned.subrange(0, c));
        let p2 = trim_spec(cleaned.subrange(c + 1, cleaned.len() as int));
        if wire_datetime_valid(p1) && wire_datetime_valid(p2) {
            Some((wire_datetime_secs(p1), wire_datetime_secs(p2)))
        } else {
            None
        }
    }
}

fn window_times(period: &str) -> (r: Result<(i64, i64), ()>)
    ensures
        match r {
            Ok(t) => spec_window_times(period@) == Some((t.0 as int, t.1 as int)),
            Err(_) => spec_window_times(period@) is None,
        },
{
    let chars = to_chars(period);
    let cleaned = strip_marks_exec(&chars);
    let c = find_comma(&cleaned);
    let n: usize = cleaned.len();
    proof {
        lemma_first_comma(cleaned@);
    }
    if c >= n {
        return Err(());
    }
    let p1 = subvec(&cleaned, 0, c);
    let p2 = subvec(&cleaned, c + 1, n);
    let (lo1, hi1) = trim_bounds(&p1);
    let (lo2, hi2) = trim_bounds(&p2);
    let start = match parse_datetime_range(&p1, lo1, hi1) {
        Ok(x) => x,
        Err(_) => {
            return Err(());
        },
    };
    let end = match parse_datetime_range(&p2, lo2, hi2) {
        Ok(x) => x,
        Err(_) => {
            return Err(());
        },
    };
    Ok((start, end))
}

/// The window a group describes: the period under the `rperiod` key read as
/// two instants, the resource id under the `resource_id` key.
pub open spec fn spec_window_of(g: GroupView) -> Option<WindowView> {
    match KvGroup::spec_get(g, "rperiod"@) {
        None => None,
        Some(period) => match spec_window_times(period) {
            None => None,
            Some(t) => match KvGroup::spec_get(g, "resource_id"@) {
                None => None,
                Some(rid) => Some(WindowView { rid: rid, start: t.0, end: t.1 }),
            },
        },
    }
}

impl ReservationWindow {
    /// Reads one group as a reservation window; a group without the two
    /// expected keys or with an unreadable period is refused.
    pub fn from_group(g: &KvGroup) -> (r: Result<ReservationWindow, ()>)
        ensures
            match r {
                Ok(w) => spec_window_of(g@) == Some(w@),
                Err(_) => spec_window_of(g@) is None,
            },
    {
        let period = match g.get("rperiod") {
            Some(p) => p,
            None => {
                return Err(());
            },
        };
        let times = match window_times(period.as_str()) {
            Ok(t) => t,
            Err(_) => {
                return Err(());
            },
        };
        let rid = match g.get("resource_id") {
            Some(x) => x,
            None => {
                return Err(());
            },
        };
        Ok(ReservationWindow { rid, start: times.0, end: times.1 })
    }
}

pub open spec fn spec_conflict_of(a: GroupView, b: GroupView) -> Option<ConflictView> {
    match (spec_window_of(a), spec_window_of(b)) {
        (Some(wa), Some(wb)) => Some(ConflictView { a: wa, b: wb }),
        _ => None,
    }
}

/// What a whole diagnostic message parses to: structured where it holds
/// exactly two readable groups, otherwise the raw message.
pub open spec fn spec_conflict_info_of(msg: Seq<char>) -> ConflictInfoView {
    let gs = scan_groups(msg, 0);
    if gs.len() == 2 {
        match spec_conflict_of(gs[0], gs[1]) {
            Some(c) => ConflictInfoView::Parsed(c),
            None => ConflictInfoView::Unparsed(msg),
        }
    } else {
        ConflictInfoView::Unparsed(msg)
    }
}

impl ReservationConflict {
    /// Assembles the conflict from the two located groups.
    pub fn from_parsed(p: &ParsedInfo) -> (r: Result<ReservationConflict, ()>)
        ensures
            match r {
                Ok(c) => spec_conflict_of(p.a@, p.b@) == Some(c@),
                Err(_) => spec_conflict_of(p.a@, p.b@) is None,
            },
    {
        let a = match ReservationWindow::from_group(&p.a) {
            Ok(w) => w,
            Err(_) => {
                return Err(());
            },
        };
        let b = match ReservationWindow::from_group(&p.b) {
            Ok(w) => w,
            Err(_) => {
                return Err(());
            },
        };
        Ok(ReservationConflict { a, b })
    }

    /// Parses a whole diagnostic message into the two colliding windows.
    pub fn from_message(s: &str) -> (r: Result<ReservationConflict, ()>)
        ensures
            match r {
                Ok(c) => spec_conflict_info_of(s@) == ConflictInfoView::Parsed(c@),
                Err(_) => spec_conflict_info_of(s@) == ConflictInfoView::Unparsed(s@),
            },
    {
        let p = match ParsedInfo::parse(s) {
            Ok(p) => p,
            Err(_) => {
                return Err(());
            },
        };
        ReservationConflict::from_parsed(&p)
    }
}

impl ReservationConflictInfo {
    /// Parses the storage engine's diagnostic; a message whose shape has
    /// drifted is kept raw rather than refused.
    pub fn from_message(s: &str) -> (r: ReservationConflictInfo)
        ensures
            r@ == spec_conflict_info_of(s@),
    {
        match ReservationConflict::from_message(s) {
            Ok(c) => ReservationConflictInfo::Parsed(c),
            Err(_) => ReservationConflictInfo::Unparsed(s.to_owned()),
        }
    }
}


} // verus!
