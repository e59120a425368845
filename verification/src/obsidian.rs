//! Where imported papers land in the vault: note file names, telling a
//! note's owner from its text, choosing a free file slot, and the inbox log.
use vstd::prelude::*;
use vstd::string::*;

use crate::fetch::{Paper, PaperView};
use crate::text::{
    alphanumeric, char_count, chars_of, concat, contains, decimal, decimal_string, ends_with, first_chars,
    has_infix, has_suffix, is_alphanumeric, join, join_runs, lemma_join_keep, lemma_join_shape,
    lemma_runs_clean, lemma_runs_keep, lowercase, single_separators, occurs_at, push_char, runs,
    string_of_range, take_chars, to_lowercase, trim, trimmed,
};

verus! {

// ---------------------------------------------------------------------------
// Slugs
// ---------------------------------------------------------------------------

/// The dash as a separator predicate.
pub open spec fn dash_sep() -> spec_fn(char) -> bool {
    |c: char| c == '-'
}

/// `s` lowercased, with every character that is not alphanumeric turned
/// into `-`.
pub open spec fn slug_chars(s: Seq<char>) -> Seq<char> {
    lowercase(s).map_values(|c: char| if alphanumeric(c) { c } else { '-' })
}

/// The slug of `s`: the non-empty dash-free pieces of `slug_chars(s)`,
/// joined by single dashes.
pub open spec fn slug(s: Seq<char>) -> Seq<char> {
    join(runs(slug_chars(s), dash_sep()), seq!['-'])
}

/// Unicode-friendly slug: letters and digits are kept (lowercased), every
/// run of other characters becomes a single dash, and there is no dash at
/// either end.
pub fn slugify(value: &str) -> (r: String)
    ensures
        r@ == slug(value@),
{
    let lower = to_lowercase(value);
    let v = chars_of(lower.as_str());
    let mut mapped: Vec<char> = Vec::new();
    let mut marks: Vec<bool> = Vec::new();
    let mut i: usize = 0;
    while i < v.len()
        invariant
            i <= v.len(),
            v@ == lowercase(value@),
            mapped.len() == i,
            marks.len() == i,
            forall|k: int|
                0 <= k < i ==> #[trigger] mapped@[k] == (if alphanumeric(v@[k]) {
                    v@[k]
                } else {
                    '-'
                }),
            forall|k: int| 0 <= k < i ==> marks@[k] == dash_sep()(#[trigger] mapped@[k]),
        decreases v.len() - i,
    {
        let c = v[i];
        let m = if is_alphanumeric(c) {
            c
        } else {
            '-'
        };
        mapped.push(m);
        marks.push(m == '-');
        i = i + 1;
    }
    assert(mapped@ == slug_chars(value@));
    join_runs(&mapped, &marks, '-', Ghost(dash_sep()))
}

/// A slug holds only dashes and alphanumeric characters (of the lowercased
/// text), never begins or ends with a dash, and never holds two dashes in a
/// row.
pub proof fn law_slug_shape(s: Seq<char>)
    ensures
        single_separators(slug(s), dash_sep()),
        forall|i: int|
            0 <= i < slug(s).len() ==> #[trigger] slug(s)[i] == '-' || alphanumeric(slug(s)[i]),
{
    let m = slug_chars(s);
    let keep = |c: char| alphanumeric(c);
    assert forall|i: int| 0 <= i < m.len() && !dash_sep()(#[trigger] m[i]) implies keep(m[i]) by {
    }
    lemma_runs_keep(m, dash_sep(), keep);
    lemma_join_keep(runs(m, dash_sep()), '-', keep);
    lemma_runs_clean(m, dash_sep());
    lemma_join_shape(runs(m, dash_sep()), '-', dash_sep());
}

// ---------------------------------------------------------------------------
// Note file names
// ---------------------------------------------------------------------------

/// The longest a note's file stem may be, in characters.
pub const MAX_STEM_CHARS: usize = 96;

/// The head of a note's stem: the year (first four characters of
/// `published`), a dash, and the title's slug.
pub open spec fn stem_head(p: PaperView) -> Seq<char> {
    first_chars(p.published, 4) + seq!['-'] + slug(p.title)
}

/// The end of a note's stem: a dash and the slug of the first stable
/// identifier the paper has (arXiv, then Semantic Scholar, then DOI), or
/// nothing when it has none.
pub open spec fn id_suffix(p: PaperView) -> Seq<char> {
    match p.arxiv_id {
        Some(a) => seq!['-'] + slug(a),
        None => match p.semantic_scholar_id {
            Some(s) => seq!['-'] + slug(s),
            None => match p.doi {
                Some(d) => seq!['-'] + slug(d),
                None => seq![],
            },
        },
    }
}

/// A note's stem: the head, cut so that head and identifier together fit in
/// [`MAX_STEM_CHARS`] characters, then the identifier, which is kept whole.
/// (Only an identifier that alone is longer than the limit is cut, with the
/// rest.)
pub open spec fn note_stem_of(p: PaperView) -> Seq<char> {
    let tail = id_suffix(p);
    if tail.len() <= MAX_STEM_CHARS {
        first_chars(stem_head(p), (MAX_STEM_CHARS - tail.len()) as nat) + tail
    } else {
        first_chars(stem_head(p) + tail, MAX_STEM_CHARS as nat)
    }
}

/// The first candidate file name for a paper's note: its stem, then `.md`.
pub open spec fn note_file_name(p: PaperView) -> Seq<char> {
    note_stem_of(p) + ".md"@
}

fn append_id_slug(stem: &mut String, id: &String)
    ensures
        final(stem)@ == old(stem)@ + seq!['-'] + slug(id@),
{
    push_char(stem, '-');
    let s = slugify(id.as_str());
    stem.append(s.as_str());
}

/// The first candidate file name for `paper`'s note.
pub fn note_filename(paper: &Paper) -> (r: String)
    ensures
        r@ == note_file_name(paper@),
        has_suffix(r@, ".md"@),
        r@.len() <= MAX_STEM_CHARS + ".md"@.len(),
        id_suffix(paper@).len() <= MAX_STEM_CHARS ==> has_suffix(r@, id_suffix(paper@) + ".md"@),
{
    let year = take_chars(paper.published.as_str(), 4);
    let safe_title = slugify(paper.title.as_str());
    let mut head = year;
    push_char(&mut head, '-');
    head.append(safe_title.as_str());
    assert(head@ == stem_head(paper@));
    let mut tail = String::new();
    match &paper.arxiv_id {
        Some(a) => append_id_slug(&mut tail, a),
        None => match &paper.semantic_scholar_id {
            Some(s) => append_id_slug(&mut tail, s),
            None => match &paper.doi {
                Some(d) => append_id_slug(&mut tail, d),
                None => {},
            },
        },
    }
    assert(tail@ =~= id_suffix(paper@));
    let tail_len = char_count(tail.as_str());
    let stem = if tail_len <= MAX_STEM_CHARS {
        let cut = take_chars(head.as_str(), MAX_STEM_CHARS - tail_len);
        concat(cut.as_str(), tail.as_str())
    } else {
        let whole = concat(head.as_str(), tail.as_str());
        take_chars(whole.as_str(), MAX_STEM_CHARS)
    };
    assert(stem@ == note_stem_of(paper@));
    let r = concat(stem.as_str(), ".md");
    assert((stem@ + ".md"@).skip(r@.len() - ".md"@.len()) == ".md"@);
    proof {
        let t = id_suffix(paper@);
        if t.len() <= MAX_STEM_CHARS {
            assert((stem@ + ".md"@).skip(r@.len() - (t + ".md"@).len()) =~= t + ".md"@);
        }
    }
    r
}

// ---------------------------------------------------------------------------
// Telling whose note a file is
// ---------------------------------------------------------------------------

/// A note's text belongs to `p` when it mentions the paper's first stable
/// identifier (Semantic Scholar, then arXiv, then DOI). A paper with none
/// owns no note.
pub open spec fn belongs_to(content: Seq<char>, p: PaperView) -> bool {
    match p.semantic_scholar_id {
        Some(id) => has_infix(content, id),
        None => match p.arxiv_id {
            Some(a) => has_infix(content, a),
            None => match p.doi {
                Some(d) => has_infix(content, d),
                None => false,
            },
        },
    }
}

/// Whether an existing note's text belongs to `paper`.
pub fn file_belongs_to_paper(content: &str, paper: &Paper) -> (r: bool)
    ensures
        r == belongs_to(content@, paper@),
{
    match &paper.semantic_scholar_id {
        Some(id) => contains(content, id.as_str()),
        None => match &paper.arxiv_id {
            Some(a) => contains(content, a.as_str()),
            None => match &paper.doi {
                Some(d) => contains(content, d.as_str()),
                None => false,
            },
        },
    }
}


// ---------------------------------------------------------------------------
// Choosing a free file slot
// ---------------------------------------------------------------------------

/// The last numbered slot tried before falling back to a timestamp.
pub const LAST_SLOT: u32 = 999;

/// `name` without a trailing `.md` (all of `name` if it has none).
pub open spec fn stem_of(name: Seq<char>) -> Seq<char> {
    if has_suffix(name, ".md"@) {
        name.take(name.len() - ".md"@.len())
    } else {
        name
    }
}

/// The file name of slot `n`: slot 1 is the note's own file name; slot
/// `n >= 2` is its stem, a dash, `n` and `.md`.
pub open spec fn slot_file_name(name: Seq<char>, n: nat) -> Seq<char> {
    if n <= 1 {
        name
    } else {
        stem_of(name) + seq!['-'] + decimal(n) + ".md"@
    }
}

/// `name` without a trailing `.md`.
pub fn note_stem(name: &str) -> (r: String)
    ensures
        r@ == stem_of(name@),
{
    let v = chars_of(name);
    if ends_with(name, ".md") {
        proof {
            reveal_strlit(".md");
        }
        let r = string_of_range(&v, 0, v.len() - 3);
        assert(v@.subrange(0, v.len() - 3) == v@.take(v.len() - 3));
        r
    } else {
        crate::text::string_of(&v)
    }
}

/// The file name of slot `n` for a note first named `name`.
pub fn slot_filename(name: &str, n: u32) -> (r: String)
    ensures
        r@ == slot_file_name(name@, n as nat),
{
    if n <= 1 {
        String::from_str(name)
    } else {
        let mut r = note_stem(name);
        push_char(&mut r, '-');
        let num = decimal_string(n as u64);
        r.append(num.as_str());
        r.append(".md");
        r
    }
}

/// The slot to try after slot `n`, or `None` after [`LAST_SLOT`].
pub fn next_slot(n: u32) -> (r: Option<u32>)
    ensures
        r == (if n < LAST_SLOT { Some((n + 1) as u32) } else { None::<u32> }),
{
    if n < LAST_SLOT {
        Some(n + 1)
    } else {
        None
    }
}

/// Whether a slot can take `p`'s note: it is free, or the note already
/// there is `p`'s (the write then finds it and counts a skip).
pub open spec fn slot_fits(existing: Option<Seq<char>>, p: PaperView) -> bool {
    match existing {
        None => true,
        Some(content) => belongs_to(content, p),
    }
}

/// Whether a slot holding `existing` (`None` when free) can take `paper`'s note.
pub fn slot_usable(existing: Option<&str>, paper: &Paper) -> (r: bool)
    ensures
        r == slot_fits(
            match existing {
                Some(c) => Some(c@),
                None => None,
            },
            paper@,
        ),
{
    match existing {
        None => true,
        Some(content) => file_belongs_to_paper(content, paper),
    }
}

/// The first slot from `n` on that can take `p`'s note, given what slots 1
/// to [`LAST_SLOT`] hold (`contents[k - 1]` for slot `k`: the note's text,
/// or `None` when the slot is free), or `None` when none up to
/// [`LAST_SLOT`] can.
pub open spec fn first_fit(contents: Seq<Option<Seq<char>>>, p: PaperView, n: nat) -> Option<nat>
    decreases LAST_SLOT + 1 - n,
{
    if n == 0 || n > LAST_SLOT || contents.len() < n {
        None
    } else if slot_fits(contents[n - 1], p) {
        Some(n)
    } else {
        first_fit(contents, p, n + 1)
    }
}

proof fn lemma_first_fit_from(contents: Seq<Option<Seq<char>>>, p: PaperView, n: nat)
    requires
        1 <= n,
        contents.len() == LAST_SLOT,
    ensures
        match first_fit(contents, p, n) {
            Some(k) => n <= k <= LAST_SLOT && slot_fits(contents[k - 1], p) && forall|j: int|
                n <= j < k ==> !slot_fits(#[trigger] contents[j - 1], p),
            None => forall|j: int| n <= j <= LAST_SLOT ==> !slot_fits(#[trigger] contents[j - 1], p),
        },
    decreases LAST_SLOT + 1 - n,
{
    if n <= LAST_SLOT && !slot_fits(contents[n - 1], p) {
        lemma_first_fit_from(contents, p, n + 1);
    }
}

/// The slot search takes the least slot that can take the note: slot `k`
/// is chosen only when it is free or already the paper's, and every slot
/// before it holds another paper's note; no slot is chosen (and the
/// timestamped name is used) only when every slot holds another paper's
/// note.
pub proof fn law_first_fit_is_least(contents: Seq<Option<Seq<char>>>, p: PaperView)
    requires
        contents.len() == LAST_SLOT,
    ensures
        match first_fit(contents, p, 1) {
            Some(k) => 1 <= k <= LAST_SLOT && slot_fits(contents[k - 1], p) && forall|j: int|
                1 <= j < k ==> !slot_fits(#[trigger] contents[j - 1], p),
            None => forall|j: int| 1 <= j <= LAST_SLOT ==> !slot_fits(#[trigger] contents[j - 1], p),
        },
{
    lemma_first_fit_from(contents, p, 1);
}

/// Trying slot `n` with [`slot_usable`] and moving on with [`next_slot`]
/// follows [`first_fit`]: when slot `n` fits it is the answer, and
/// otherwise the answer is that of the next slot, or none after
/// [`LAST_SLOT`]. So the search that starts at slot 1 ends at
/// `first_fit(contents, p, 1)`.
pub proof fn law_slot_search_step(contents: Seq<Option<Seq<char>>>, p: PaperView, n: u32)
    requires
        1 <= n <= LAST_SLOT,
        contents.len() == LAST_SLOT,
    ensures
        first_fit(contents, p, n as nat) == (if slot_fits(contents[n - 1], p) {
            Some(n as nat)
        } else if n < LAST_SLOT {
            first_fit(contents, p, (n + 1) as nat)
        } else {
            None
        }),
{
}

/// An integer in decimal, with a leading `-` when negative.
pub open spec fn signed_decimal(t: int) -> Seq<char> {
    if t < 0 {
        seq!['-'] + decimal((-t) as nat)
    } else {
        decimal(t as nat)
    }
}

/// The last resort when every numbered slot belongs to another paper: the
/// stem, a dash, a timestamp and `.md`.
pub fn fallback_filename(name: &str, timestamp: i64) -> (r: String)
    ensures
        r@ == stem_of(name@) + seq!['-'] + signed_decimal(timestamp as int) + ".md"@,
{
    let mut r = note_stem(name);
    push_char(&mut r, '-');
    if timestamp < 0 {
        push_char(&mut r, '-');
        let magnitude: u64 = if timestamp == i64::MIN {
            9223372036854775808u64
        } else {
            (-timestamp) as u64
        };
        let digits = decimal_string(magnitude);
        r.append(digits.as_str());
    } else {
        let digits = decimal_string(timestamp as u64);
        r.append(digits.as_str());
    }
    r.append(".md");
    r
}

// ---------------------------------------------------------------------------
// The inbox
// ---------------------------------------------------------------------------

/// What marks a paper's line in the inbox: `[[stem|`.
pub open spec fn link_marker(stem: Seq<char>) -> Seq<char> {
    "[["@ + stem + "|"@
}

/// A paper's inbox line: an open task linking its note, with title, year
/// and topic.
pub open spec fn inbox_line(
    stem: Seq<char>,
    title: Seq<char>,
    published: Seq<char>,
    topic: Seq<char>,
) -> Seq<char> {
    "- [ ] "@ + link_marker(stem) + trimmed(title) + "]] — "@ + trimmed(published) + " `"@
        + trimmed(topic) + "`"@
}

/// The date heading of the inbox.
pub open spec fn date_heading(today: Seq<char>) -> Seq<char> {
    "\n## "@ + today
}

/// The inbox after logging a paper, or `None` when the paper is already
/// listed: today's heading is added when missing, then the paper's line.
pub open spec fn inbox_after(
    content: Seq<char>,
    stem: Seq<char>,
    title: Seq<char>,
    published: Seq<char>,
    topic: Seq<char>,
    today: Seq<char>,
) -> Option<Seq<char>> {
    if has_infix(content, link_marker(stem)) {
        None
    } else {
        let with_heading = if has_infix(content, date_heading(today)) {
            content
        } else {
            content + date_heading(today) + "\n"@
        };
        Some(with_heading + inbox_line(stem, title, published, topic) + "\n"@)
    }
}

/// The inbox text after logging a paper under today's heading, or `None`
/// when the inbox already links the paper's note.
pub fn inbox_update(
    content: &str,
    stem: &str,
    title: &str,
    published: &str,
    topic: &str,
    today: &str,
) -> (r: Option<String>)
    ensures
        match r {
            Some(t) => inbox_after(content@, stem@, title@, published@, topic@, today@) == Some(t@),
            None => inbox_after(content@, stem@, title@, published@, topic@, today@) is None,
        },
{
    let mut marker = String::from_str("[[");
    marker.append(stem);
    marker.append("|");
    if contains(content, marker.as_str()) {
        return None;
    }
    let heading = concat("\n## ", today);
    let mut text = String::from_str(content);
    if !contains(content, heading.as_str()) {
        text.append(heading.as_str());
        text.append("\n");
    }
    text.append("- [ ] ");
    text.append(marker.as_str());
    let t = trim(title);
    text.append(t.as_str());
    text.append("]] — ");
    let p = trim(published);
    text.append(p.as_str());
    text.append(" `");
    let tp = trim(topic);
    text.append(tp.as_str());
    text.append("`");
    text.append("\n");
    assert(text@ == inbox_after(content@, stem@, title@, published@, topic@, today@).unwrap()) by {
        let c1 = if has_infix(content@, date_heading(today@)) {
            content@
        } else {
            content@ + date_heading(today@) + "\n"@
        };
        assert(text@ =~= c1 + inbox_line(stem@, title@, published@, topic@) + "\n"@);
    }
    Some(text)
}

/// Logging a paper twice does not list it twice: once the inbox has been
/// updated for a paper, updating it again for that paper changes nothing.
pub proof fn law_inbox_logs_a_paper_once(
    content: Seq<char>,
    stem: Seq<char>,
    title: Seq<char>,
    published: Seq<char>,
    topic: Seq<char>,
    today: Seq<char>,
    title2: Seq<char>,
    published2: Seq<char>,
    topic2: Seq<char>,
    today2: Seq<char>,
)
    requires
        inbox_after(content, stem, title, published, topic, today) is Some,
    ensures
        inbox_after(
            inbox_after(content, stem, title, published, topic, today).unwrap(),
            stem,
            title2,
            published2,
            topic2,
            today2,
        ) is None,
{
    let c1 = if has_infix(content, date_heading(today)) {
        content
    } else {
        content + date_heading(today) + "\n"@
    };
    let m = link_marker(stem);
    let rest = trimmed(title) + "]] — "@ + trimmed(published) + " `"@ + trimmed(topic) + "`"@
        + "\n"@;
    let after = inbox_after(content, stem, title, published, topic, today).unwrap();
    assert(after =~= (c1 + "- [ ] "@) + m + rest);
    let at = (c1 + "- [ ] "@).len() as int;
    assert(after.subrange(at, at + m.len()) =~= m);
    assert(occurs_at(after, m, at));
}

/// Logging a paper only appends to the inbox, and leaves today's heading in
/// it, so a second paper logged the same day goes straight under that
/// heading: only its line is added.
pub proof fn law_inbox_appends_under_one_heading(
    content: Seq<char>,
    stem: Seq<char>,
    title: Seq<char>,
    published: Seq<char>,
    topic: Seq<char>,
    today: Seq<char>,
    stem2: Seq<char>,
    title2: Seq<char>,
    published2: Seq<char>,
    topic2: Seq<char>,
)
    requires
        inbox_after(content, stem, title, published, topic, today) is Some,
    ensures
        ({
            let t = inbox_after(content, stem, title, published, topic, today).unwrap();
            &&& t.len() >= content.len()
            &&& t.take(content.len() as int) == content
            &&& has_infix(t, date_heading(today))
            &&& inbox_after(t, stem2, title2, published2, topic2, today) is Some ==> inbox_after(
                t,
                stem2,
                title2,
                published2,
                topic2,
                today,
            ) == Some(t + inbox_line(stem2, title2, published2, topic2) + "\n"@)
        }),
{
    let h = date_heading(today);
    let c1 = if has_infix(content, h) {
        content
    } else {
        content + h + "\n"@
    };
    let t = inbox_after(content, stem, title, published, topic, today).unwrap();
    let tail = inbox_line(stem, title, published, topic) + "\n"@;
    assert(t == c1 + tail);
    assert(t.take(content.len() as int) =~= content);
    if has_infix(content, h) {
        let i = choose|i: int| occurs_at(content, h, i);
        assert(t.subrange(i, i + h.len()) =~= content.subrange(i, i + h.len()));
        assert(occurs_at(t, h, i));
    } else {
        let i = content.len() as int;
        assert(t.subrange(i, i + h.len()) =~= h);
        assert(occurs_at(t, h, i));
    }
}

} // verus!
