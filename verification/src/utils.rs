use vstd::prelude::*;

use vstd::string::StrSliceExecFns;

use crate::client::dec_digits;

verus! {

pub open spec fn is_blank(c: char) -> bool {
    c == ' ' || c == '\t' || c == '\n' || c == '\r'
}

pub open spec fn trim_front(s: Seq<char>) -> Seq<char>
    decreases s.len(),
{
    if s.len() > 0 && is_blank(s[0]) {
        trim_front(s.drop_first())
    } else {
        s
    }
}

pub open spec fn trim_back(s: Seq<char>) -> Seq<char>
    decreases s.len(),
{
    if s.len() > 0 && is_blank(s.last()) {
        trim_back(s.drop_last())
    } else {
        s
    }
}

/// `s` without leading and trailing blanks.
pub open spec fn trim_text(s: Seq<char>) -> Seq<char> {
    trim_back(trim_front(s))
}

/// The position of the first comma in `s`, or its length when there is none.
pub open spec fn first_comma(s: Seq<char>) -> nat
    decreases s.len(),
{
    if s.len() == 0 {
        0
    } else if s[0] == ',' {
        0
    } else {
        1 + first_comma(s.drop_first())
    }
}

/// The comma-separated fields of `s`, each without leading and trailing
/// blanks.
pub open spec fn split_trim_text(s: Seq<char>) -> Seq<Seq<char>>
    decreases s.len(),
{
    let i = first_comma(s);
    if i >= s.len() {
        seq![trim_text(s)]
    } else {
        seq![trim_text(s.take(i as int))] + split_trim_text(s.skip(i as int + 1))
    }
}

proof fn lemma_first_comma_at(t: Seq<char>, j: int)
    requires
        0 <= j <= t.len(),
        forall|m: int| 0 <= m < j ==> t[m] != ',',
        j == t.len() || t[j] == ',',
    ensures
        first_comma(t) == j,
    decreases j,
{
    if j > 0 {
        lemma_first_comma_at(t.drop_first(), j - 1);
    }
}

fn is_blank_char(c: char) -> (r: bool)
    ensures
        r == is_blank(c),
{
    c == ' ' || c == '\t' || c == '\n' || c == '\r'
}

/// Extracts `s[from..to]` without leading and trailing blanks.
fn trimmed_range(s: &str, from: usize, to: usize) -> (t: String)
    requires
        from <= to <= s@.len(),
    ensures
        t@ == trim_text(s@.subrange(from as int, to as int)),
{
    let mut a = from;
    let mut b = to;
    while a < b && is_blank_char(s.get_char(a))
        invariant
            from <= a <= b <= s@.len(),
            b == to,
            trim_front(s@.subrange(from as int, to as int)) == trim_front(s@.subrange(
                a as int, to as int)),
        decreases b - a,
    {
        proof {
            let cur = s@.subrange(a as int, to as int);
            assert(cur[0] == s@[a as int]);
            assert(cur.drop_first() =~= s@.subrange(a as int + 1, to as int));
        }
        a += 1;
    }
    proof {
        assert(trim_front(s@.subrange(from as int, to as int)) == s@.subrange(a as int,
            to as int));
    }
    while b > a && is_blank_char(s.get_char(b - 1))
        invariant
            from <= a <= b <= to <= s@.len(),
            trim_back(s@.subrange(a as int, to as int)) == trim_back(s@.subrange(a as int,
                b as int)),
        decreases b,
    {
        proof {
            let cur = s@.subrange(a as int, b as int);
            assert(cur.last() == s@[b as int - 1]);
            assert(cur.drop_last() =~= s@.subrange(a as int, b as int - 1));
        }
        b -= 1;
    }
    proof {
        assert(trim_back(s@.subrange(a as int, b as int)) == s@.subrange(a as int, b as int));
    }
    String::from_str(s.substring_char(a, b))
}

/// Splits the comma-separated resources option into names: the fields of
/// `arg` between commas, each without leading and trailing blanks.
pub fn split_resources(arg: &str) -> (v: Vec<String>)
    ensures
        v.deep_view() == split_trim_text(arg@),
{
    let n = arg.unicode_len();
    let mut v: Vec<String> = Vec::new();
    let mut start: usize = 0;
    proof {
        assert(arg@.skip(0) =~= arg@);
        assert(Seq::<Seq<char>>::empty() + split_trim_text(arg@) =~= split_trim_text(arg@));
    }
    loop
        invariant_except_break
            start <= n,
            n as int == arg@.len(),
            split_trim_text(arg@) == v.deep_view() + split_trim_text(arg@.skip(start as int)),
        ensures
            v.deep_view() == split_trim_text(arg@),
        decreases n - start,
    {
        let mut k = start;
        while k < n && arg.get_char(k) != ','
            invariant
                start <= k <= n,
                n as int == arg@.len(),
                forall|m: int| start as int <= m < k as int ==> arg@[m] != ',',
            decreases n - k,
        {
            k += 1;
        }
        let ghost t = arg@.skip(start as int);
        proof {
            assert forall|m: int| 0 <= m < k as int - start as int implies t[m] != ',' by {
                assert(t[m] == arg@[start as int + m]);
            }
            if k < n {
                assert(t[k as int - start as int] == arg@[k as int]);
            }
            lemma_first_comma_at(t, k as int - start as int);
        }
        let token = trimmed_range(arg, start, k);
        let ghost prevdv = v.deep_view();
        v.push(token);
        proof {
            assert forall|q: int| 0 <= q < v.deep_view().len() implies v.deep_view()[q]
                == (prevdv + seq![token@])[q] by {
                if q < prevdv.len() {
                    assert(v.deep_view()[q] == prevdv[q]);
                }
            }
            assert(v.deep_view() =~= prevdv + seq![token@]);
            if k == n {
                assert(arg@.subrange(start as int, k as int) =~= t);
                assert(split_trim_text(t) =~= seq![token@]);
                assert(v.deep_view() =~= split_trim_text(arg@));
            } else {
                assert(t.take(k as int - start as int) =~= arg@.subrange(start as int,
                    k as int));
                assert(t.skip(k as int - start as int + 1) =~= arg@.skip(k as int + 1));
                assert(split_trim_text(t) =~= seq![token@] + split_trim_text(arg@.skip(
                    k as int + 1)));
                assert(split_trim_text(arg@) =~= v.deep_view() + split_trim_text(arg@.skip(
                    k as int + 1)));
            }
        }
        if k == n {
            break;
        }
        start = k + 1;
    }
    v
}

/// The names of the resource collections a backup covers by default.
pub open spec fn default_resources_text() -> Seq<Seq<char>> {
    seq![
        "Assignables"@,
        "AssignedEfforts"@,
        "Assignments"@,
        "Attachments"@,
        "Bugs"@,
        "Builds"@,
        "Comments"@,
        "Companies"@,
        "CustomActivities"@,
        "CustomFields"@,
        "CustomRules"@,
        "EntityPermissions"@,
        "EntityStates"@,
        "EntityTypes"@,
        "Epics"@,
        "Features"@,
        "Generals"@,
        "GeneralFollowers"@,
        "GeneralUsers"@,
        "GlobalSettings"@,
        "Impediments"@,
        "InboundAssignables"@,
        "Iterations"@,
        "Messages"@,
        "MessageUids"@,
        "Milestones"@,
        "MilestoneProjects"@,
        "OutboundAssignables"@,
        "PortfolioEpics"@,
        "Priorities"@,
        "Processes"@,
        "Programs"@,
        "Projects"@,
        "ProjectMembers"@,
        "Relations"@,
        "RelationTypes"@,
        "Releases"@,
        "ReleaseProjects"@,
        "Requests"@,
        "Requesters"@,
        "RequestTypes"@,
        "Revisions"@,
        "RevisionFiles"@,
        "Roles"@,
        "RoleEfforts"@,
        "RoleEntityTypes"@,
        "RoleEntityTypeProcessSettings"@,
        "Severities"@,
        "Tags"@,
        "Tasks"@,
        "Teams"@,
        "TeamAssignments"@,
        "TeamIterations"@,
        "TeamMembers"@,
        "TeamProjects"@,
        "Terms"@,
        "TestCases"@,
        "TestCaseRuns"@,
        "TestPlans"@,
        "TestPlanRuns"@,
        "TestRunItemHierarchyLinks"@,
        "TestSteps"@,
        "TestStepRuns"@,
        "Times"@,
        "Users"@,
        "UserStories"@,
        "Workflows"@,
    ]
}

/// Builds the default resource list, one name per collection type the
/// remote service exposes.
pub fn default_resources() -> (v: Vec<String>)
    ensures
        v.deep_view() == default_resources_text(),
        v.deep_view().len() == 67,
{
    let mut v: Vec<String> = Vec::new();
    v.push(String::from_str("Assignables"));
    v.push(String::from_str("AssignedEfforts"));
    v.push(String::from_str("Assignments"));
    v.push(String::from_str("Attachments"));
    v.push(String::from_str("Bugs"));
    v.push(String::from_str("Builds"));
    v.push(String::from_str("Comments"));
    v.push(String::from_str("Companies"));
    v.push(String::from_str("CustomActivities"));
    v.push(String::from_str("CustomFields"));
    v.push(String::from_str("CustomRules"));
    v.push(String::from_str("EntityPermissions"));
    v.push(String::from_str("EntityStates"));
    v.push(String::from_str("EntityTypes"));
    v.push(String::from_str("Epics"));
    v.push(String::from_str("Features"));
    v.push(String::from_str("Generals"));
    v.push(String::from_str("GeneralFollowers"));
    v.push(String::from_str("GeneralUsers"));
    v.push(String::from_str("GlobalSettings"));
    v.push(String::from_str("Impediments"));
    v.push(String::from_str("InboundAssignables"));
    v.push(String::from_str("Iterations"));
    v.push(String::from_str("Messages"));
    v.push(String::from_str("MessageUids"));
    v.push(String::from_str("Milestones"));
    v.push(String::from_str("MilestoneProjects"));
    v.push(String::from_str("OutboundAssignables"));
    v.push(String::from_str("PortfolioEpics"));
    v.push(String::from_str("Priorities"));
    v.push(String::from_str("Processes"));
    v.push(String::from_str("Programs"));
    v.push(String::from_str("Projects"));
    v.push(String::from_str("ProjectMembers"));
    v.push(String::from_str("Relations"));
    v.push(String::from_str("RelationTypes"));
    v.push(String::from_str("Releases"));
    v.push(String::from_str("ReleaseProjects"));
    v.push(String::from_str("Requests"));
    v.push(String::from_str("Requesters"));
    v.push(String::from_str("RequestTypes"));
    v.push(String::from_str("Revisions"));
    v.push(String::from_str("RevisionFiles"));
    v.push(String::from_str("Roles"));
    v.push(String::from_str("RoleEfforts"));
    v.push(String::from_str("RoleEntityTypes"));
    v.push(String::from_str("RoleEntityTypeProcessSettings"));
    v.push(String::from_str("Severities"));
    v.push(String::from_str("Tags"));
    v.push(String::from_str("Tasks"));
    v.push(String::from_str("Teams"));
    v.push(String::from_str("TeamAssignments"));
    v.push(String::from_str("TeamIterations"));
    v.push(String::from_str("TeamMembers"));
    v.push(String::from_str("TeamProjects"));
    v.push(String::from_str("Terms"));
    v.push(String::from_str("TestCases"));
    v.push(String::from_str("TestCaseRuns"));
    v.push(String::from_str("TestPlans"));
    v.push(String::from_str("TestPlanRuns"));
    v.push(String::from_str("TestRunItemHierarchyLinks"));
    v.push(String::from_str("TestSteps"));
    v.push(String::from_str("TestStepRuns"));
    v.push(String::from_str("Times"));
    v.push(String::from_str("Users"));
    v.push(String::from_str("UserStories"));
    v.push(String::from_str("Workflows"));
    proof {
        assert(v.deep_view() =~= default_resources_text());
    }
    v
}

/// `digits`, left-padded with zeros to `width` characters.
pub open spec fn zero_pad(digits: Seq<char>, width: nat) -> Seq<char> {
    if digits.len() >= width {
        digits
    } else {
        Seq::new((width - digits.len()) as nat, |i: int| '0') + digits
    }
}

/// The timestamp text naming an archive: four digits of the year, then two
/// each for month, day, hour and minute, zero-padded.
pub open spec fn yyyymmddhhmm_text(year: nat, month: nat, day: nat, hour: nat,
    minute: nat) -> Seq<char> {
    zero_pad(dec_digits(year), 4) + zero_pad(dec_digits(month), 2) + zero_pad(dec_digits(
        day), 2) + zero_pad(dec_digits(hour), 2) + zero_pad(dec_digits(minute), 2)
}

fn two_digits(n: u64) -> (s: String)
    requires
        n < 100,
    ensures
        s@ == zero_pad(dec_digits(n as nat), 2),
{
    let mut s = String::new();
    if n < 10 {
        s.append("0");
    }
    let d = crate::client::u64_to_string(n);
    s.append(d.as_str());
    proof {
        reveal_strlit("0");
        if n < 10 {
            assert("0"@ =~= Seq::new(1, |i: int| '0'));
            assert(s@ =~= zero_pad(dec_digits(n as nat), 2));
        } else {
            assert(dec_digits((n / 10) as nat).len() == 1);
            assert(dec_digits(n as nat).len() == 2);
            assert(s@ =~= zero_pad(dec_digits(n as nat), 2));
        }
    }
    s
}

fn four_digits(n: u64) -> (s: String)
    requires
        n < 10000,
    ensures
        s@ == zero_pad(dec_digits(n as nat), 4),
{
    let mut s = String::new();
    if n < 10 {
        s.append("000");
    } else if n < 100 {
        s.append("00");
    } else if n < 1000 {
        s.append("0");
    }
    let d = crate::client::u64_to_string(n);
    s.append(d.as_str());
    proof {
        reveal_strlit("0");
        reveal_strlit("00");
        reveal_strlit("000");
        if n < 10 {
            assert("000"@ =~= Seq::new(3, |i: int| '0'));
            assert(dec_digits(n as nat).len() == 1);
        } else if n < 100 {
            assert("00"@ =~= Seq::new(2, |i: int| '0'));
            assert(dec_digits((n / 10) as nat).len() == 1);
            assert(dec_digits(n as nat).len() == 2);
        } else if n < 1000 {
            assert("0"@ =~= Seq::new(1, |i: int| '0'));
            assert(dec_digits((n / 100) as nat).len() == 1);
            assert(dec_digits((n / 10) as nat).len() == 2);
            assert(dec_digits(n as nat).len() == 3);
        } else {
            assert(dec_digits((n / 1000) as nat).len() == 1);
            assert(dec_digits((n / 100) as nat).len() == 2);
            assert(dec_digits((n / 10) as nat).len() == 3);
            assert(dec_digits(n as nat).len() == 4);
        }
        assert(s@ =~= zero_pad(dec_digits(n as nat), 4));
    }
    s
}

/// Formats clock fields as the timestamp that names an archive file. The
/// clock itself is read by the caller; this only formats its fields.
pub fn yyyymmddhhmm(year: u64, month: u64, day: u64, hour: u64, minute: u64) -> (s: String)
    requires
        year < 10000,
        month < 100,
        day < 100,
        hour < 100,
        minute < 100,
    ensures
        s@ == yyyymmddhhmm_text(year as nat, month as nat, day as nat, hour as nat,
            minute as nat),
{
    let mut s = four_digits(year);
    s.append(two_digits(month).as_str());
    s.append(two_digits(day).as_str());
    s.append(two_digits(hour).as_str());
    s.append(two_digits(minute).as_str());
    s
}

} // verus!
