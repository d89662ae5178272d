//! The inputs of the operations on the ledger, as a command line hands them over.
use vstd::prelude::*;

use crate::api::StoryStatus;
use crate::story::Id;
use crate::text::chars_of;

verus! {

/// How to answer the questions that an operation asks before it goes on.
#[derive(Clone, Copy, Debug, PartialEq, Eq, Structural)]
pub enum Prompt {
    /// Answer every question with yes.
    AssumeYes,
    /// Answer every question with no.
    AssumeNo,
    /// Ask the user.
    Ask,
}

impl Prompt {
    /// The policy given by the `--yes` and `--no` flags: yes wins over no, and neither asks.
    pub fn from_flags(yes: bool, no: bool) -> (r: Prompt)
        ensures
            yes ==> r == Prompt::AssumeYes,
            !yes && no ==> r == Prompt::AssumeNo,
            !yes && !no ==> r == Prompt::Ask,
    {
        if yes {
            Prompt::AssumeYes
        } else if no {
            Prompt::AssumeNo
        } else {
            Prompt::Ask
        }
    }
}


/// Whether `c` is an ASCII digit.
pub open spec fn is_digit(c: char) -> bool {
    '0' <= c <= '9'
}

/// The value of a sequence of decimal digits.
pub open spec fn digits_value(s: Seq<char>) -> nat
    decreases s.len(),
{
    if s.len() == 0 {
        0
    } else {
        digits_value(s.drop_last()) * 10 + (s.last() as nat - '0' as nat) as nat
    }
}

/// `s` without a leading `+`.
pub open spec fn unsigned_part(s: Seq<char>) -> Seq<char> {
    if s.len() > 0 && s[0] == '+' {
        s.drop_first()
    } else {
        s
    }
}

/// Whether every character of `s` is an ASCII digit.
pub open spec fn all_digits(s: Seq<char>) -> bool {
    forall|i: int| 0 <= i < s.len() ==> is_digit(#[trigger] s[i])
}

/// What `str::parse::<u32>` makes of `s`: an optional `+`, then one or more ASCII digits whose
/// value fits in a `u32`.
pub open spec fn parsed_u32(s: Seq<char>) -> Option<u32> {
    let d = unsigned_part(s);
    if d.len() > 0 && all_digits(d) && digits_value(d) <= u32::MAX {
        Some(digits_value(d) as u32)
    } else {
        None
    }
}

/// The first position from `i` on where `p` occurs in `s`, or `-1`.
pub open spec fn find_from(s: Seq<char>, p: Seq<char>, i: int) -> int
    decreases s.len() + 1 - i,
{
    if i < 0 || i + p.len() > s.len() {
        -1
    } else if s.subrange(i, i + p.len()) == p {
        i
    } else {
        find_from(s, p, i + 1)
    }
}

/// The story ID in a Fimfiction story URL: the digits right after
/// `http(s)://(www.)fimfiction.net/story/`, up to the next `/` or the end.
pub open spec fn url_story_id(url: Seq<char>) -> Option<u32> {
    let a = find_from(url, seq![':', '/', '/'], 0);
    let protocol = url.take(a);
    let rest = url.skip(a + 3);
    let b = find_from(rest, seq!['/'], 0);
    let domain = rest.take(b);
    let host = if domain.len() >= 4 && domain.take(4) == seq!['w', 'w', 'w', '.'] {
        domain.skip(4)
    } else {
        domain
    };
    let after_domain = rest.skip(b + 1);
    let c = find_from(after_domain, seq!['/'], 0);
    let after_path = after_domain.skip(c + 1);
    let d = find_from(after_path, seq!['/'], 0);
    if a < 0 || !(protocol == seq!['h', 't', 't', 'p'] || protocol == seq![
        'h',
        't',
        't',
        'p',
        's',
    ]) {
        None
    } else if b < 0 || host != seq![
        'f',
        'i',
        'm',
        'f',
        'i',
        'c',
        't',
        'i',
        'o',
        'n',
        '.',
        'n',
        'e',
        't',
    ] {
        None
    } else if c < 0 || after_domain.take(c) != seq!['s', 't', 'o', 'r', 'y'] {
        None
    } else if d >= 0 {
        parsed_u32(after_path.take(d))
    } else {
        parsed_u32(after_path)
    }
}

/// The characters of `s` from `lo` to `hi`.
fn slice(s: &Vec<char>, lo: usize, hi: usize) -> (r: Vec<char>)
    requires
        lo <= hi <= s.len(),
    ensures
        r@ == s@.subrange(lo as int, hi as int),
{
    let mut out: Vec<char> = Vec::new();
    let mut i = lo;
    while i < hi
        invariant
            lo <= i <= hi <= s.len(),
            out@ == s@.subrange(lo as int, i as int),
        decreases hi - i,
    {
        out.push(s[i]);
        i += 1;
        assert(out@ =~= s@.subrange(lo as int, i as int));
    }
    out
}

/// Whether `p` occurs in `s` at position `i`.
fn occurs_at(s: &Vec<char>, p: &Vec<char>, i: usize) -> (r: bool)
    requires
        i + p.len() <= s.len(),
    ensures
        r == (s@.subrange(i as int, i + p.len()) == p@),
{
    let mut k: usize = 0;
    while k < p.len()
        invariant
            i + p.len() <= s.len(),
            k <= p.len(),
            forall|j: int| 0 <= j < k ==> s@[i + j] == p@[j],
        decreases p.len() - k,
    {
        if s[i + k] != p[k] {
            assert(s@.subrange(i as int, i + p.len())[k as int] != p@[k as int]);
            return false;
        }
        k += 1;
    }
    assert(s@.subrange(i as int, i + p.len()) =~= p@);
    true
}

/// The first position where `p` occurs in `s`.
fn find(s: &Vec<char>, p: &Vec<char>) -> (r: Option<usize>)
    ensures
        r matches Some(i) ==> find_from(s@, p@, 0) == i,
        r is None ==> find_from(s@, p@, 0) == -1,
{
    if p.len() == 0 {
        assert(s@.subrange(0, 0) =~= p@);
        return Some(0);
    }
    if p.len() > s.len() {
        return None;
    }
    let n = s.len() - p.len() + 1;
    let mut i: usize = 0;
    while i < n
        invariant
            n == s.len() - p.len() + 1,
            i <= n,
            find_from(s@, p@, 0) == find_from(s@, p@, i as int),
        decreases n - i,
    {
        if occurs_at(s, p, i) {
            return Some(i);
        }
        i += 1;
    }
    None
}

proof fn lemma_digits_prefix(d: Seq<char>, k: int)
    requires
        0 <= k <= d.len(),
        forall|i: int| 0 <= i < d.len() ==> is_digit(#[trigger] d[i]),
    ensures
        digits_value(d.take(k)) <= digits_value(d),
    decreases d.len() - k,
{
    if k < d.len() {
        lemma_digits_prefix(d, k + 1);
        assert(d.take(k + 1).drop_last() =~= d.take(k));
    } else {
        assert(d.take(k) =~= d);
    }
}

/// What `str::parse::<u32>` makes of `s`.
fn parse_u32(s: &Vec<char>) -> (r: Option<u32>)
    ensures
        r == parsed_u32(s@),
{
    let start: usize = if s.len() > 0 && s[0] == '+' { 1 } else { 0 };
    let d = slice(s, start, s.len());
    assert(d@ =~= unsigned_part(s@));
    if d.len() == 0 {
        return None;
    }
    let mut value: u64 = 0;
    let mut i: usize = 0;
    while i < d.len()
        invariant
            d@ == unsigned_part(s@),
            d.len() > 0,
            i <= d.len(),
            forall|j: int| 0 <= j < i ==> is_digit(#[trigger] d@[j]),
            value == digits_value(d@.take(i as int)),
            value <= u32::MAX,
        decreases d.len() - i,
    {
        let c = d[i];
        if !('0' <= c && c <= '9') {
            assert(!is_digit(d@[i as int]));
            assert(!all_digits(d@));
            return None;
        }
        assert(d@.take(i + 1).drop_last() =~= d@.take(i as int));
        assert(d@.take(i + 1).last() == c);
        let next = value * 10 + (c as u64 - '0' as u64);
        assert(digits_value(d@.take(i + 1)) == next);
        i += 1;
        if next > u32::MAX as u64 {
            proof {
                if all_digits(d@) {
                    lemma_digits_prefix(d@, i as int);
                }
            }
            return None;
        }
        value = next;
    }
    assert(d@.take(i as int) =~= d@);
    assert(all_digits(d@));
    Some(value as u32)
}

/// Whether `a` and `b` hold the same characters.
fn same_chars(a: &Vec<char>, b: &Vec<char>) -> (r: bool)
    ensures
        r == (a@ == b@),
{
    if a.len() != b.len() {
        return false;
    }
    let r = occurs_at(a, b, 0);
    assert(a@.subrange(0, b.len() as int) =~= a@);
    r
}

/// Extracts the story ID from a Fimfiction story URL, like the first capture group of
/// `^https?://(?:www\.)?fimfiction\.net/story/(\d+)` but ending at the next `/`.
pub fn id_from_url(url: &str) -> (r: Option<u32>)
    ensures
        r == url_story_id(url@),
{
    let s = chars_of(url);
    let sep = vec![':', '/', '/'];
    let slash = vec!['/'];
    assert(sep@ =~= seq![':', '/', '/']);
    assert(slash@ =~= seq!['/']);
    let a = match find(&s, &sep) {
        Some(a) => a,
        None => return None,
    };
    proof {
        lemma_find_from_bounds(s@, sep@, 0);
    }
    assert(a + 3 <= s.len());
    let protocol = slice(&s, 0, a);
    let rest = slice(&s, a + 3, s.len());
    assert(protocol@ =~= s@.take(a as int));
    assert(rest@ =~= s@.skip(a + 3));
    if !(same_chars(&protocol, &vec!['h', 't', 't', 'p']) || same_chars(
        &protocol,
        &vec!['h', 't', 't', 'p', 's'],
    )) {
        return None;
    }
    let b = match find(&rest, &slash) {
        Some(b) => b,
        None => return None,
    };
    proof {
        lemma_find_from_bounds(rest@, slash@, 0);
    }
    let domain = slice(&rest, 0, b);
    assert(domain@ =~= rest@.take(b as int));
    let www = vec!['w', 'w', 'w', '.'];
    let host = if domain.len() >= 4 && occurs_at(&domain, &www, 0) {
        assert(domain@.subrange(0, 4) =~= domain@.take(4));
        let h = slice(&domain, 4, domain.len());
        assert(h@ =~= domain@.skip(4));
        h
    } else {
        proof {
            if domain@.len() >= 4 {
                assert(domain@.subrange(0, 4) =~= domain@.take(4));
            }
        }
        domain
    };
    if !same_chars(
        &host,
        &vec!['f', 'i', 'm', 'f', 'i', 'c', 't', 'i', 'o', 'n', '.', 'n', 'e', 't'],
    ) {
        return None;
    }
    let after_domain = slice(&rest, b + 1, rest.len());
    assert(after_domain@ =~= rest@.skip(b + 1));
    let c = match find(&after_domain, &slash) {
        Some(c) => c,
        None => return None,
    };
    proof {
        lemma_find_from_bounds(after_domain@, slash@, 0);
    }
    let path = slice(&after_domain, 0, c);
    assert(path@ =~= after_domain@.take(c as int));
    if !same_chars(&path, &vec!['s', 't', 'o', 'r', 'y']) {
        return None;
    }
    let after_path = slice(&after_domain, c + 1, after_domain.len());
    assert(after_path@ =~= after_domain@.skip(c + 1));
    match find(&after_path, &slash) {
        Some(d) => {
            proof {
                lemma_find_from_bounds(after_path@, slash@, 0);
            }
            let id = slice(&after_path, 0, d);
            assert(id@ =~= after_path@.take(d as int));
            parse_u32(&id)
        },
        None => parse_u32(&after_path),
    }
}

proof fn lemma_find_from_bounds(s: Seq<char>, p: Seq<char>, i: int)
    requires
        0 <= i,
    ensures
        find_from(s, p, i) >= 0 ==> i <= find_from(s, p, i) && find_from(s, p, i) + p.len()
            <= s.len(),
    decreases s.len() + 1 - i,
{
    if i + p.len() <= s.len() && s.subrange(i, i + p.len()) != p {
        lemma_find_from_bounds(s, p, i + 1);
    }
}

/// The story ID given on a command line: a plain ID, or a Fimfiction story URL.
pub fn parse_story_arg(value: &str) -> (r: Option<u32>)
    ensures
        r == (match parsed_u32(value@) {
            Some(id) => Some(id),
            None => url_story_id(value@),
        }),
{
    let s = chars_of(value);
    match parse_u32(&s) {
        Some(id) => Some(id),
        None => id_from_url(value),
    }
}


/// Adds stories for tracking and downloads them.
#[derive(Clone, Debug, PartialEq)]
pub struct Track {
    /// Overwrites already tracked stories without asking.
    pub overwrite: bool,
    /// Don't download stories, only update the ledger.
    pub skip_download: bool,
    /// IDs of the stories to track.
    pub ids: Vec<u32>,
}

/// Untracks stories.
#[derive(Clone, Debug, PartialEq)]
pub struct Untrack {
    /// IDs of the stories to untrack.
    pub ids: Vec<u32>,
}

/// The keys a listing of tracked stories can be sorted by.
#[derive(Clone, Copy, Debug, PartialEq, Eq, Structural)]
pub enum SortKey {
    /// Story ID.
    Id,
    /// Title.
    Title,
    /// Author.
    Author,
    /// Chapter count.
    Chapters,
    /// Word count.
    Words,
    /// Update instant.
    Update,
}

/// Which completion statuses a listing shows, as a mask of one bit per status.
#[derive(Clone, Copy, Debug, PartialEq, Eq, Structural)]
pub struct StatusFilter(u8);

/// The bit of a status in a [`StatusFilter`].
pub open spec fn status_bit(status: StoryStatus) -> u8 {
    match status {
        StoryStatus::Complete => 1,
        StoryStatus::Incomplete => 2,
        StoryStatus::Hiatus => 4,
        StoryStatus::Cancelled => 8,
    }
}

impl StatusFilter {
    /// Whether the filter shows stories with `status`.
    pub closed spec fn spec_shows(&self, status: StoryStatus) -> bool {
        self.0 & status_bit(status) != 0
    }

    /// A filter that shows exactly the statuses whose flag is set.
    pub fn new(complete: bool, incomplete: bool, hiatus: bool, cancelled: bool) -> (r: StatusFilter)
        ensures
            r.spec_shows(StoryStatus::Complete) == complete,
            r.spec_shows(StoryStatus::Incomplete) == incomplete,
            r.spec_shows(StoryStatus::Hiatus) == hiatus,
            r.spec_shows(StoryStatus::Cancelled) == cancelled,
    {
        let a: u8 = if complete { 1 } else { 0 };
        let b: u8 = if incomplete { 2 } else { 0 };
        let c: u8 = if hiatus { 4 } else { 0 };
        let d: u8 = if cancelled { 8 } else { 0 };
        let mask = a | b | c | d;
        assert(mask & 1 != 0 <==> a == 1) by (bit_vector)
            requires
                mask == a | b | c | d,
                a == 0 || a == 1,
                b == 0 || b == 2,
                c == 0 || c == 4,
                d == 0 || d == 8,
        ;
        assert(mask & 2 != 0 <==> b == 2) by (bit_vector)
            requires
                mask == a | b | c | d,
                a == 0 || a == 1,
                b == 0 || b == 2,
                c == 0 || c == 4,
                d == 0 || d == 8,
        ;
        assert(mask & 4 != 0 <==> c == 4) by (bit_vector)
            requires
                mask == a | b | c | d,
                a == 0 || a == 1,
                b == 0 || b == 2,
                c == 0 || c == 4,
                d == 0 || d == 8,
        ;
        assert(mask & 8 != 0 <==> d == 8) by (bit_vector)
            requires
                mask == a | b | c | d,
                a == 0 || a == 1,
                b == 0 || b == 2,
                c == 0 || c == 4,
                d == 0 || d == 8,
        ;
        StatusFilter(mask)
    }

    /// A filter that shows every status.
    pub fn all() -> (r: StatusFilter)
        ensures
            forall|s: StoryStatus| r.spec_shows(s),
    {
        let r = StatusFilter::new(true, true, true, true);
        assert forall|s: StoryStatus| r.spec_shows(s) by {
            match s {
                StoryStatus::Complete => {},
                StoryStatus::Incomplete => {},
                StoryStatus::Hiatus => {},
                StoryStatus::Cancelled => {},
            }
        }
        r
    }

    /// The filter given by the four `--show-*` flags: the statuses whose flag is set, or every
    /// status when no flag is set.
    pub fn from_flags(complete: bool, incomplete: bool, hiatus: bool, cancelled: bool) -> (r:
        StatusFilter)
        ensures
            !complete && !incomplete && !hiatus && !cancelled ==> forall|s: StoryStatus|
                r.spec_shows(s),
            complete || incomplete || hiatus || cancelled ==> {
                &&& r.spec_shows(StoryStatus::Complete) == complete
                &&& r.spec_shows(StoryStatus::Incomplete) == incomplete
                &&& r.spec_shows(StoryStatus::Hiatus) == hiatus
                &&& r.spec_shows(StoryStatus::Cancelled) == cancelled
            },
    {
        if !complete && !incomplete && !hiatus && !cancelled {
            StatusFilter::all()
        } else {
            StatusFilter::new(complete, incomplete, hiatus, cancelled)
        }
    }

    /// Whether the filter shows stories with `status`.
    pub fn shows(&self, status: StoryStatus) -> (r: bool)
        ensures
            r == self.spec_shows(status),
    {
        let bit: u8 = match status {
            StoryStatus::Complete => 1,
            StoryStatus::Incomplete => 2,
            StoryStatus::Hiatus => 4,
            StoryStatus::Cancelled => 8,
        };
        self.0 & bit != 0
    }

    /// Whether the filter shows complete stories.
    pub fn complete(&self) -> (r: bool)
        ensures
            r == self.spec_shows(StoryStatus::Complete),
    {
        self.shows(StoryStatus::Complete)
    }

    /// Whether the filter shows incomplete stories.
    pub fn incomplete(&self) -> (r: bool)
        ensures
            r == self.spec_shows(StoryStatus::Incomplete),
    {
        self.shows(StoryStatus::Incomplete)
    }

    /// Whether the filter shows stories on hiatus.
    pub fn hiatus(&self) -> (r: bool)
        ensures
            r == self.spec_shows(StoryStatus::Hiatus),
    {
        self.shows(StoryStatus::Hiatus)
    }

    /// Whether the filter shows cancelled stories.
    pub fn cancelled(&self) -> (r: bool)
        ensures
            r == self.spec_shows(StoryStatus::Cancelled),
    {
        self.shows(StoryStatus::Cancelled)
    }
}

/// Lists the tracked stories.
#[derive(Clone, Debug, PartialEq)]
pub struct List {
    /// Show only the ID and title of each story.
    pub short: bool,
    /// Sort the stories by the given key.
    pub sort_by: Option<SortKey>,
    /// Reverse the order of the list.
    pub reverse: bool,
    /// Which statuses to show.
    pub status_filter: StatusFilter,
}

/// Checks the tracked stories for updates and downloads them.
#[derive(Clone, Debug, PartialEq)]
pub struct Download {
    /// Download whether or not there is an update.
    pub force: bool,
    /// How to answer the questions about stories not marked as incomplete.
    pub prompt: Prompt,
    /// IDs of the stories to check; every tracked story when empty.
    pub ids: Vec<u32>,
}

/// The operations on the ledger.
#[derive(Clone, Debug, PartialEq)]
pub enum SubCommand {
    /// Adds stories for tracking and downloads them.
    Track(Track),
    /// Untracks stories.
    Untrack(Untrack),
    /// Lists the tracked stories.
    List(List),
    /// Checks for updates and downloads them.
    Download(Download),
}

} // verus!
