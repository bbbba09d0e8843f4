//! Resolution of a match rule to one authoritative process id.
//!
//! A rule is tried first as a regular expression against each process's full
//! command line; a rule that does not compile is matched as a plain substring
//! of the command line or of the process name. Among several matches one
//! process is chosen by a fixed tie-break.
use vstd::prelude::*;

verus! {

broadcast use {vstd::seq_lib::group_to_multiset_ensures, vstd::string::group_string_axioms};

/// Whether `regex::Regex::new` accepts a pattern.
pub uninterp spec fn regex_compiles(pattern: Seq<char>) -> bool;

/// Whether a compiled pattern finds a match anywhere in a text.
pub uninterp spec fn regex_finds(pattern: Seq<char>, text: Seq<char>) -> bool;

#[verifier::external_type_specification]
#[verifier::external_body]
pub struct ExRegex(regex::Regex);

/// A regular expression together with the text it was compiled from. It is
/// built only by `compile`, so `re` is always the compilation of `source`.
struct RegexRule {
    source: String,
    re: regex::Regex,
}

/// Relies on regex::Regex::new: it accepts or refuses a pattern by its text
/// alone (its syntax, and the default size limit); the compiled expression is
/// kept with that text.
#[verifier::external_body]
fn compile(source: &str) -> (r: Option<RegexRule>)
    ensures
        r is Some <==> regex_compiles(source@),
        r matches Some(rule) ==> rule.source@ == source@,
{
    match regex::Regex::new(source) {
        Ok(re) => Some(RegexRule { source: source.to_string(), re }),
        Err(_) => None,
    }
}

impl RegexRule {
    /// Relies on regex::Regex::is_match: whether the expression compiled
    /// from `source` matches anywhere in `text`.
    #[verifier::external_body]
    fn is_match(&self, text: &str) -> (r: bool)
        ensures
            r == regex_finds(self.source@, text@),
    {
        self.re.is_match(text)
    }
}

/// One live process as the operating system reports it.
#[derive(Clone, Debug)]
pub struct ProcessInfo {
    pub pid: i32,
    pub parent: Option<i32>,
    /// Executable name.
    pub name: String,
    /// Full command line, arguments joined by single spaces.
    pub cmd: String,
}

/// A process that matches a rule.
#[derive(Clone, Debug)]
pub struct Candidate {
    pub pid: i32,
    pub parent: Option<i32>,
    pub cmd: String,
}

/// `needle` occurs in `hay` starting at `i`.
pub open spec fn occurs_at(hay: Seq<char>, needle: Seq<char>, i: int) -> bool {
    0 <= i && i + needle.len() <= hay.len() && hay.subrange(i, i + needle.len()) == needle
}

/// `needle` is a contiguous part of `hay`.
pub open spec fn has_substring(hay: Seq<char>, needle: Seq<char>) -> bool {
    exists|i: int| occurs_at(hay, needle, i)
}

/// Whether `rule` selects the process `p`.
pub open spec fn rule_matches(rule: Seq<char>, p: ProcessInfo) -> bool {
    if regex_compiles(rule) {
        regex_finds(rule, p.cmd@)
    } else {
        has_substring(p.cmd@, rule) || has_substring(p.name@, rule)
    }
}

pub open spec fn candidate_of(p: ProcessInfo) -> Candidate {
    Candidate { pid: p.pid, parent: p.parent, cmd: p.cmd }
}

/// The processes of `procs` that `rule` selects, in their order.
pub open spec fn matching(rule: Seq<char>, procs: Seq<ProcessInfo>) -> Seq<Candidate>
    decreases procs.len(),
{
    if procs.len() == 0 {
        Seq::empty()
    } else {
        let prev = matching(rule, procs.drop_last());
        if rule_matches(rule, procs.last()) {
            prev.push(candidate_of(procs.last()))
        } else {
            prev
        }
    }
}

/// The process ids of `c`, in order.
pub open spec fn pids_of(c: Seq<Candidate>) -> Seq<i32> {
    c.map_values(|x: Candidate| x.pid)
}

/// Launched by the init process.
pub open spec fn is_init_child(x: Candidate) -> bool {
    x.parent == Some(1i32)
}

/// Its parent lies outside the matched group `c`.
pub open spec fn is_group_root(c: Seq<Candidate>, x: Candidate) -> bool {
    x.parent is Some && !pids_of(c).contains(x.parent->0)
}

/// Tie-break levels: 0 keeps the candidates launched by init, 1 those whose
/// parent is outside the group, 2 every candidate.
pub open spec fn eligible(c: Seq<Candidate>, level: nat, x: Candidate) -> bool {
    if level == 0 {
        is_init_child(x)
    } else if level == 1 {
        is_group_root(c, x)
    } else {
        true
    }
}

/// The smallest process id among the first `n` candidates of `c` eligible at
/// `level`; none when none is.
pub open spec fn best_in(c: Seq<Candidate>, level: nat, n: int) -> Option<i32>
    decreases n,
{
    if n <= 0 {
        None
    } else {
        let prev = best_in(c, level, n - 1);
        let x = c[n - 1];
        if eligible(c, level, x) {
            match prev {
                Some(m) => Some(if x.pid < m { x.pid } else { m }),
                None => Some(x.pid),
            }
        } else {
            prev
        }
    }
}

/// The tie-break: none for no candidate; else the smallest id launched by
/// init, else the smallest id whose parent is outside the group, else the
/// smallest id. It depends on the set of candidates, not on their order.
pub open spec fn primary_of(c: Seq<Candidate>) -> Option<i32> {
    if best_in(c, 0, c.len() as int) is Some {
        best_in(c, 0, c.len() as int)
    } else if best_in(c, 1, c.len() as int) is Some {
        best_in(c, 1, c.len() as int)
    } else {
        best_in(c, 2, c.len() as int)
    }
}

proof fn lemma_best_in(c: Seq<Candidate>, level: nat, n: int)
    requires
        0 <= n <= c.len(),
    ensures
        best_in(c, level, n) is None <==> forall|i: int|
            0 <= i < n ==> !eligible(c, level, #[trigger] c[i]),
        best_in(c, level, n) matches Some(m) ==> (exists|i: int|
            0 <= i < n && eligible(c, level, #[trigger] c[i]) && c[i].pid == m),
        best_in(c, level, n) matches Some(m) ==> (forall|i: int|
            0 <= i < n && eligible(c, level, #[trigger] c[i]) ==> m <= c[i].pid),
    decreases n,
{
    if n > 0 {
        lemma_best_in(c, level, n - 1);
        if eligible(c, level, c[n - 1]) {
            if let Some(m) = best_in(c, level, n - 1) {
                let w = choose|i: int| 0 <= i < n - 1 && eligible(c, level, #[trigger] c[i]) && c[i].pid == m;
                if c[n - 1].pid >= m {
                    assert(eligible(c, level, c[w]) && c[w].pid == m);
                }
            }
        }
    }
}

/// Which candidates are eligible depends on the set of candidates alone.
proof fn lemma_eligible_same_set(c1: Seq<Candidate>, c2: Seq<Candidate>, level: nat, x: Candidate)
    requires
        forall|y: Candidate| c1.contains(y) <==> c2.contains(y),
    ensures
        eligible(c1, level, x) == eligible(c2, level, x),
{
    if level == 1 && x.parent is Some {
        let p = x.parent->0;
        if pids_of(c1).contains(p) {
            let i = choose|i: int| 0 <= i < pids_of(c1).len() && pids_of(c1)[i] == p;
            assert(c2.contains(c1[i]));
            let j = choose|j: int| 0 <= j < c2.len() && c2[j] == c1[i];
            assert(pids_of(c2)[j] == p);
        }
        if pids_of(c2).contains(p) {
            let i = choose|i: int| 0 <= i < pids_of(c2).len() && pids_of(c2)[i] == p;
            assert(c1.contains(c2[i]));
            let j = choose|j: int| 0 <= j < c1.len() && c1[j] == c2[i];
            assert(pids_of(c1)[j] == p);
        }
    }
}

proof fn lemma_best_same_set(c1: Seq<Candidate>, c2: Seq<Candidate>, level: nat)
    requires
        forall|y: Candidate| c1.contains(y) <==> c2.contains(y),
    ensures
        best_in(c1, level, c1.len() as int) == best_in(c2, level, c2.len() as int),
{
    lemma_best_in(c1, level, c1.len() as int);
    lemma_best_in(c2, level, c2.len() as int);
    let b1 = best_in(c1, level, c1.len() as int);
    let b2 = best_in(c2, level, c2.len() as int);
    assert forall|i: int| 0 <= i < c1.len() && eligible(c1, level, #[trigger] c1[i]) implies b2
        is Some && b2->0 <= c1[i].pid by {
        lemma_eligible_same_set(c1, c2, level, c1[i]);
        assert(c2.contains(c1[i]));
        let j = choose|j: int| 0 <= j < c2.len() && c2[j] == c1[i];
        assert(eligible(c2, level, c2[j]));
    }
    assert forall|j: int| 0 <= j < c2.len() && eligible(c2, level, #[trigger] c2[j]) implies b1
        is Some && b1->0 <= c2[j].pid by {
        lemma_eligible_same_set(c1, c2, level, c2[j]);
        assert(c1.contains(c2[j]));
        let i = choose|i: int| 0 <= i < c1.len() && c1[i] == c2[j];
        assert(eligible(c1, level, c1[i]));
    }
}

/// The tie-break gives the same process for two lists of the same candidates
/// in any order.
pub proof fn lemma_primary_order_free(c1: Seq<Candidate>, c2: Seq<Candidate>)
    requires
        forall|y: Candidate| c1.contains(y) <==> c2.contains(y),
    ensures
        primary_of(c1) == primary_of(c2),
{
    lemma_best_same_set(c1, c2, 0);
    lemma_best_same_set(c1, c2, 1);
    lemma_best_same_set(c1, c2, 2);
}

proof fn lemma_matching_contains(rule: Seq<char>, procs: Seq<ProcessInfo>, y: Candidate)
    ensures
        matching(rule, procs).contains(y) <==> exists|i: int|
            0 <= i < procs.len() && rule_matches(rule, #[trigger] procs[i]) && candidate_of(procs[i])
                == y,
    decreases procs.len(),
{
    if procs.len() > 0 {
        let prev = procs.drop_last();
        lemma_matching_contains(rule, prev, y);
        let m = matching(rule, procs);
        let mp = matching(rule, prev);
        if m.contains(y) {
            let k = choose|k: int| 0 <= k < m.len() && m[k] == y;
            if !(k < mp.len()) {
                assert(y == candidate_of(procs[procs.len() - 1]));
            } else {
                assert(mp[k] == y);
                let i = choose|i: int|
                    0 <= i < prev.len() && rule_matches(rule, #[trigger] prev[i]) && candidate_of(
                        prev[i],
                    ) == y;
                assert(procs[i] == prev[i]);
            }
        }
        if exists|i: int|
            0 <= i < procs.len() && rule_matches(rule, #[trigger] procs[i]) && candidate_of(procs[i])
                == y {
            let i = choose|i: int|
                0 <= i < procs.len() && rule_matches(rule, #[trigger] procs[i]) && candidate_of(
                    procs[i],
                ) == y;
            if i == procs.len() - 1 {
                assert(m[m.len() - 1] == y);
            } else {
                assert(prev[i] == procs[i]);
                assert(mp.contains(y));
                let k = choose|k: int| 0 <= k < mp.len() && mp[k] == y;
                assert(m[k] == y);
            }
        }
    }
}

/// Resolution depends on the set of live processes, not on the order in
/// which the operating system lists them.
pub proof fn lemma_resolution_order_free(
    rule: Seq<char>,
    procs1: Seq<ProcessInfo>,
    procs2: Seq<ProcessInfo>,
)
    requires
        forall|p: ProcessInfo| procs1.contains(p) <==> procs2.contains(p),
    ensures
        primary_of(matching(rule, procs1)) == primary_of(matching(rule, procs2)),
{
    let c1 = matching(rule, procs1);
    let c2 = matching(rule, procs2);
    assert forall|y: Candidate| c1.contains(y) <==> c2.contains(y) by {
        lemma_matching_contains(rule, procs1, y);
        lemma_matching_contains(rule, procs2, y);
        if c1.contains(y) {
            let i = choose|i: int|
                0 <= i < procs1.len() && rule_matches(rule, #[trigger] procs1[i]) && candidate_of(
                    procs1[i],
                ) == y;
            assert(procs2.contains(procs1[i]));
            let j = choose|j: int| 0 <= j < procs2.len() && procs2[j] == procs1[i];
            assert(rule_matches(rule, procs2[j]) && candidate_of(procs2[j]) == y);
        }
        if c2.contains(y) {
            let i = choose|i: int|
                0 <= i < procs2.len() && rule_matches(rule, #[trigger] procs2[i]) && candidate_of(
                    procs2[i],
                ) == y;
            assert(procs1.contains(procs2[i]));
            let j = choose|j: int| 0 <= j < procs1.len() && procs1[j] == procs2[i];
            assert(rule_matches(rule, procs1[j]) && candidate_of(procs1[j]) == y);
        }
    }
    lemma_primary_order_free(c1, c2);
}

/// The characters of `s`, in order.
fn chars_of(s: &str) -> (r: Vec<char>)
    ensures
        r@ == s@,
{
    let mut out: Vec<char> = Vec::new();
    for ch in it: s.chars()
        invariant
            out@ == it.seq().subrange(0, it.index() as int),
    {
        out.push(ch);
    }
    out
}

/// Whether `needle` occurs in `hay` at position `i`.
fn occurs_at_exec(hay: &Vec<char>, needle: &Vec<char>, i: usize) -> (r: bool)
    requires
        i + needle@.len() <= hay@.len(),
    ensures
        r == occurs_at(hay@, needle@, i as int),
{
    let m = needle.len();
    let hl = hay.len();
    let mut j: usize = 0;
    while j < m
        invariant
            j <= m,
            m == needle@.len(),
            i + m <= hay@.len(),
            hl == hay@.len(),
            forall|k: int| 0 <= k < j ==> hay@[i + k] == needle@[k],
        decreases m - j,
    {
        if hay[i + j] != needle[j] {
            assert(hay@.subrange(i as int, i + m)[j as int] != needle@[j as int]);
            return false;
        }
        j += 1;
    }
    assert(hay@.subrange(i as int, i + m) =~= needle@);
    true
}

/// Whether `needle` is a contiguous part of `hay`.
fn contains_chars(hay: &Vec<char>, needle: &Vec<char>) -> (r: bool)
    ensures
        r == has_substring(hay@, needle@),
{
    if needle.len() > hay.len() {
        return false;
    }
    let last = hay.len() - needle.len();
    let mut i: usize = 0;
    while i <= last
        invariant
            last == hay@.len() - needle@.len(),
            forall|k: int| 0 <= k < i ==> !occurs_at(hay@, needle@, k),
        decreases last + 1 - i,
    {
        if occurs_at_exec(hay, needle, i) {
            return true;
        }
        if i == last {
            return false;
        }
        i += 1;
    }
    false
}

/// Whether some candidate of `c` has process id `pid`.
fn group_has_pid(c: &Vec<Candidate>, pid: i32) -> (r: bool)
    ensures
        r == pids_of(c@).contains(pid),
{
    let n = c.len();
    let mut j: usize = 0;
    while j < n
        invariant
            j <= n,
            n == c@.len(),
            forall|k: int| 0 <= k < j ==> c@[k].pid != pid,
        decreases n - j,
    {
        if c[j].pid == pid {
            assert(pids_of(c@)[j as int] == pid);
            return true;
        }
        j += 1;
    }
    proof {
        if pids_of(c@).contains(pid) {
            let k = choose|k: int| 0 <= k < pids_of(c@).len() && pids_of(c@)[k] == pid;
            assert(c@[k].pid == pid);
        }
    }
    false
}

/// Whether `x` is eligible at tie-break `level` among the candidates `c`.
fn is_eligible(c: &Vec<Candidate>, level: u8, x: &Candidate) -> (r: bool)
    requires
        level <= 2,
    ensures
        r == eligible(c@, level as nat, *x),
{
    if level == 0 {
        match x.parent {
            Some(pp) => pp == 1,
            None => false,
        }
    } else if level == 1 {
        match x.parent {
            Some(pp) => !group_has_pid(c, pp),
            None => false,
        }
    } else {
        true
    }
}

/// The smallest process id among the candidates eligible at `level`.
fn best_at(c: &Vec<Candidate>, level: u8) -> (r: Option<i32>)
    requires
        level <= 2,
    ensures
        r == best_in(c@, level as nat, c@.len() as int),
{
    let n = c.len();
    let mut best: Option<i32> = None;
    let mut i: usize = 0;
    while i < n
        invariant
            i <= n,
            n == c@.len(),
            level <= 2,
            best == best_in(c@, level as nat, i as int),
        decreases n - i,
    {
        if is_eligible(c, level, &c[i]) {
            let p = c[i].pid;
            best = match best {
                Some(m) => Some(if p < m { p } else { m }),
                None => Some(p),
            };
        }
        i += 1;
    }
    best
}

/// Picks the authoritative process among the candidates of one rule: none
/// for none; else the smallest id launched by init, else the smallest id whose
/// parent is outside the group, else the smallest id.
pub fn select_primary(c: &Vec<Candidate>) -> (r: Option<i32>)
    ensures
        r == primary_of(c@),
        c@.len() == 0 <==> r is None,
        c@.len() == 1 ==> r == Some(c@[0].pid),
        r matches Some(m) ==> pids_of(c@).contains(m),
        c@.len() > 1 && (forall|i: int|
            0 <= i < c@.len() ==> !is_init_child(#[trigger] c@[i]) && !is_group_root(c@, c@[i]))
            ==> (forall|i: int| 0 <= i < c@.len() ==> r->0 <= #[trigger] c@[i].pid),
{
    let b0 = best_at(c, 0);
    let b1 = best_at(c, 1);
    let b2 = best_at(c, 2);
    proof {
        let n = c@.len() as int;
        lemma_best_in(c@, 0, n);
        lemma_best_in(c@, 1, n);
        lemma_best_in(c@, 2, n);
        if n > 0 {
            assert(eligible(c@, 2, c@[0]));
        }
        let r = primary_of(c@);
        if r is Some {
            let m = r->0;
            let l: nat = if b0 is Some { 0 } else if b1 is Some { 1 } else { 2 };
            let i = choose|i: int| 0 <= i < n && eligible(c@, l, #[trigger] c@[i]) && c@[i].pid == m;
            assert(pids_of(c@)[i] == m);
        }
    }
    if b0.is_some() {
        b0
    } else if b1.is_some() {
        b1
    } else {
        b2
    }
}

/// Whether `rule` selects `p`, given whether `rule` compiled as a regular
/// expression and, if so, whether it matched the command line: the match
/// when it compiled, else a substring of the command line or of the name.
pub fn rule_selects(compiled: bool, regex_hit: bool, rule: &str, p: &ProcessInfo) -> (r: bool)
    ensures
        r == (if compiled {
            regex_hit
        } else {
            has_substring(p.cmd@, rule@) || has_substring(p.name@, rule@)
        }),
{
    if compiled {
        return regex_hit;
    }
    let needle = chars_of(rule);
    let cmd = chars_of(p.cmd.as_str());
    let name = chars_of(p.name.as_str());
    contains_chars(&cmd, &needle) || contains_chars(&name, &needle)
}

/// The processes of `procs` that `rule` selects, in their order: by regular
/// expression on the command line, or, when `rule` does not compile, by
/// substring of the command line or of the process name.
pub fn matching_candidates(rule: &str, procs: &Vec<ProcessInfo>) -> (r: Vec<Candidate>)
    ensures
        r@ == matching(rule@, procs@),
{
    let compiled = compile(rule);
    let mut out: Vec<Candidate> = Vec::new();
    let n = procs.len();
    let mut i: usize = 0;
    while i < n
        invariant
            i <= n,
            n == procs@.len(),
            compiled is Some <==> regex_compiles(rule@),
            compiled matches Some(re) ==> re.source@ == rule@,
            out@ == matching(rule@, procs@.subrange(0, i as int)),
        decreases n - i,
    {
        let p = &procs[i];
        let regex_hit = match &compiled {
            Some(re) => re.is_match(p.cmd.as_str()),
            None => false,
        };
        let selected = rule_selects(compiled.is_some(), regex_hit, rule, p);
        assert(procs@.subrange(0, i + 1).drop_last() =~= procs@.subrange(0, i as int));
        if selected {
            out.push(Candidate { pid: p.pid, parent: p.parent, cmd: p.cmd.clone() });
        }
        i += 1;
    }
    assert(procs@.subrange(0, n as int) =~= procs@);
    out
}

/// The authoritative process id that `cmdline` resolves to among `procs`.
pub fn get_process_pid(cmdline: &str, procs: &Vec<ProcessInfo>) -> (r: Option<i32>)
    ensures
        r == primary_of(matching(cmdline@, procs@)),
{
    let c = matching_candidates(cmdline, procs);
    select_primary(&c)
}

/// Whether some process of `procs` matches `cmdline`.
pub fn check_process_running(cmdline: &str, procs: &Vec<ProcessInfo>) -> (r: bool)
    ensures
        r == (matching(cmdline@, procs@).len() > 0),
{
    get_process_pid(cmdline, procs).is_some()
}

/// Every element is at most every later one.
pub open spec fn ascending(s: Seq<i32>) -> bool {
    forall|i: int, j: int| 0 <= i < j < s.len() ==> s[i] <= s[j]
}

/// Inserts `x` into the ascending `v`, keeping it ascending.
fn insert_sorted(v: &mut Vec<i32>, x: i32)
    requires
        ascending(old(v)@),
    ensures
        ascending(final(v)@),
        final(v)@.to_multiset() == old(v)@.to_multiset().insert(x),
{
    let n = v.len();
    let mut pos: usize = 0;
    while pos < n && v[pos] <= x
        invariant
            pos <= n,
            n == v@.len(),
            forall|k: int| 0 <= k < pos ==> v@[k] <= x,
        decreases n - pos,
    {
        pos += 1;
    }
    let ghost before = v@;
    v.insert(pos, x);
    assert forall|i: int, j: int| 0 <= i < j < v@.len() implies v@[i] <= v@[j] by {
        if j < pos {
            assert(v@[i] == before[i] && v@[j] == before[j]);
        } else if j == pos {
            assert(v@[i] == before[i]);
        } else if i < pos {
            assert(v@[i] == before[i] && v@[j] == before[j - 1]);
            assert(before[pos as int] > x);
            assert(before[i] <= x);
        } else if i == pos {
            assert(v@[j] == before[j - 1]);
            assert(before[pos as int] > x);
        } else {
            assert(v@[i] == before[i - 1] && v@[j] == before[j - 1]);
        }
    }
}

/// The ids of every process that `cmdline` matches among `procs`, ascending.
pub fn get_all_matching_pids(cmdline: &str, procs: &Vec<ProcessInfo>) -> (r: Vec<i32>)
    ensures
        ascending(r@),
        r@.to_multiset() == pids_of(matching(cmdline@, procs@)).to_multiset(),
{
    let c = matching_candidates(cmdline, procs);
    let mut out: Vec<i32> = Vec::new();
    let n = c.len();
    let mut i: usize = 0;
    while i < n
        invariant
            i <= n,
            n == c@.len(),
            ascending(out@),
            out@.to_multiset() == pids_of(c@.subrange(0, i as int)).to_multiset(),
        decreases n - i,
    {
        assert(pids_of(c@.subrange(0, i + 1)) =~= pids_of(c@.subrange(0, i as int)).push(
            c@[i as int].pid,
        ));
        insert_sorted(&mut out, c[i].pid);
        i += 1;
    }
    assert(c@.subrange(0, n as int) =~= c@);
    out
}

} // verus!
