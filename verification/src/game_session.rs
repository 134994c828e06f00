use vstd::prelude::*;
use vstd::string::*;
use crate::error::CodingGameError;
use crate::text::{
    check_digit_char, check_lower_char, check_upper_char, dec_digits, is_digit_char,
    is_lower_char, is_upper_char, lower_char, push_char, push_decimal, to_lower_char,
};

verus! {

// ---------------------------------------------------------------------------
// Safe-name normalization
// ---------------------------------------------------------------------------
/// A character the name filter keeps: ASCII letters and digits, dash,
/// underscore and space.
pub open spec fn is_kept_char(c: char) -> bool {
    is_lower_char(c) || is_upper_char(c) || is_digit_char(c) || c == '-' || c == '_' || c == ' '
}

/// A character a finished safe name may hold.
pub open spec fn is_safe_char(c: char) -> bool {
    is_lower_char(c) || is_digit_char(c) || c == '_'
}

/// The subsequence of the characters the filter keeps.
pub open spec fn kept_of(s: Seq<char>) -> Seq<char>
    decreases s.len(),
{
    if s.len() == 0 {
        Seq::<char>::empty()
    } else {
        let rest = kept_of(s.drop_last());
        if is_kept_char(s.last()) {
            rest.push(s.last())
        } else {
            rest
        }
    }
}

/// Every character lowered.
pub open spec fn lowered_of(s: Seq<char>) -> Seq<char> {
    Seq::new(s.len(), |i: int| lower_char(s[i]))
}

/// The sequence with its leading run of digits removed.
pub open spec fn stripped_of(s: Seq<char>) -> Seq<char>
    decreases s.len(),
{
    if s.len() > 0 && is_digit_char(s.first()) {
        stripped_of(s.drop_first())
    } else {
        s
    }
}

/// Dash and space become underscore; everything else is unchanged.
pub open spec fn replace_char(c: char) -> char {
    if c == '-' || c == ' ' {
        '_'
    } else {
        c
    }
}

/// Every separator replaced.
pub open spec fn replaced_of(s: Seq<char>) -> Seq<char> {
    Seq::new(s.len(), |i: int| replace_char(s[i]))
}

/// The whole normalization: filter, lowercase, strip leading digits,
/// replace separators — in exactly this order.
pub open spec fn safe_name_spec(s: Seq<char>) -> Seq<char> {
    replaced_of(stripped_of(lowered_of(kept_of(s))))
}

/// Decide `is_kept_char` executably.
fn check_kept_char(c: char) -> (r: bool)
    ensures
        r == is_kept_char(c),
{
    check_lower_char(c) || check_upper_char(c) || check_digit_char(c) || c == '-' || c == '_'
        || c == ' '
}

/// Keep only the characters the filter accepts.
fn filter_name(s: &str) -> (r: String)
    ensures
        r@ == kept_of(s@),
{
    let n = s.unicode_len();
    let mut out = String::new();
    let mut i: usize = 0;
    while i < n
        invariant
            i <= n,
            n == s@.len(),
            out@ == kept_of(s@.take(i as int)),
        decreases n - i,
    {
        let c = s.get_char(i);
        proof {
            assert(s@.take(i as int + 1).drop_last() =~= s@.take(i as int));
            assert(s@.take(i as int + 1).last() == s@[i as int]);
        }
        if check_kept_char(c) {
            push_char(&mut out, c);
        }
        i = i + 1;
    }
    proof {
        assert(s@.take(n as int) =~= s@);
    }
    out
}

/// Lowercase every character.
fn lower_name(s: &str) -> (r: String)
    ensures
        r@ == lowered_of(s@),
{
    let n = s.unicode_len();
    let mut out = String::new();
    let mut i: usize = 0;
    while i < n
        invariant
            i <= n,
            n == s@.len(),
            out@ == lowered_of(s@.take(i as int)),
        decreases n - i,
    {
        let c = s.get_char(i);
        push_char(&mut out, to_lower_char(c));
        proof {
            assert(lowered_of(s@.take(i as int + 1)) =~= lowered_of(s@.take(i as int)).push(
                lower_char(s@[i as int]),
            ));
        }
        i = i + 1;
    }
    proof {
        assert(s@.take(n as int) =~= s@);
    }
    out
}

/// The length of the leading run of digit characters.
fn leading_digits(s: &str) -> (j: usize)
    ensures
        j <= s@.len(),
        forall|k: int| 0 <= k < j ==> is_digit_char(s@[k]),
        j < s@.len() ==> !is_digit_char(s@[j as int]),
{
    let n = s.unicode_len();
    let mut j: usize = 0;
    while j < n
        invariant
            j <= n,
            n == s@.len(),
            forall|k: int| 0 <= k < j ==> is_digit_char(s@[k]),
        decreases n - j,
    {
        let c = s.get_char(j);
        if !check_digit_char(c) {
            return j;
        }
        j = j + 1;
    }
    j
}

/// Removing a leading run of digits that ends at `j` is what
/// `stripped_of` does.
proof fn lemma_strip_at(s: Seq<char>, j: int)
    requires
        0 <= j <= s.len(),
        forall|k: int| 0 <= k < j ==> is_digit_char(s[k]),
        j < s.len() ==> !is_digit_char(s[j]),
    ensures
        stripped_of(s) == s.skip(j),
    decreases j,
{
    if j == 0 {
        assert(s.skip(0) =~= s);
        if s.len() > 0 {
            assert(s.first() == s[0]);
        }
    } else {
        assert(is_digit_char(s[0]));
        assert(s.first() == s[0]);
        let t = s.drop_first();
        assert(t =~= s.skip(1));
        lemma_strip_at(t, j - 1);
        assert(t.skip(j - 1) =~= s.skip(j));
    }
}

/// Remove the leading run of digit characters.
fn strip_name(s: &str) -> (r: String)
    ensures
        r@ == stripped_of(s@),
{
    let j = leading_digits(s);
    let n = s.unicode_len();
    let sub = s.substring_char(j, n);
    proof {
        lemma_strip_at(s@, j as int);
        assert(s@.subrange(j as int, n as int) =~= s@.skip(j as int));
    }
    sub.to_owned()
}

/// Replace dash and space with underscore.
fn replace_name(s: &str) -> (r: String)
    ensures
        r@ == replaced_of(s@),
{
    let n = s.unicode_len();
    let mut out = String::new();
    let mut i: usize = 0;
    while i < n
        invariant
            i <= n,
            n == s@.len(),
            out@ == replaced_of(s@.take(i as int)),
        decreases n - i,
    {
        let c = s.get_char(i);
        if c == '-' || c == ' ' {
            push_char(&mut out, '_');
        } else {
            push_char(&mut out, c);
        }
        proof {
            assert(replaced_of(s@.take(i as int + 1)) =~= replaced_of(s@.take(i as int)).push(
                replace_char(s@[i as int]),
            ));
        }
        i = i + 1;
    }
    proof {
        assert(s@.take(n as int) =~= s@);
    }
    out
}

/// Turn a display name into a filesystem- and identifier-safe slug:
/// keep only letters, digits, dash, underscore and space; lowercase;
/// strip leading digits; replace dash and space with underscore.
pub fn safe_name(name: &str) -> (r: String)
    ensures
        r@ == safe_name_spec(name@),
{
    let filtered = filter_name(name);
    let lowered = lower_name(filtered.as_str());
    let stripped = strip_name(lowered.as_str());
    replace_name(stripped.as_str())
}

/// Every character the filter keeps satisfies `is_kept_char`.
proof fn lemma_kept_chars(s: Seq<char>)
    ensures
        forall|i: int| 0 <= i < kept_of(s).len() ==> is_kept_char(#[trigger] kept_of(s)[i]),
    decreases s.len(),
{
    if s.len() > 0 {
        let t = s.drop_last();
        lemma_kept_chars(t);
        assert forall|i: int| 0 <= i < kept_of(s).len() implies is_kept_char(
            #[trigger] kept_of(s)[i],
        ) by {
            if is_kept_char(s.last()) {
                if i < kept_of(t).len() {
                    assert(kept_of(s)[i] == kept_of(t)[i]);
                } else {
                    assert(kept_of(s)[i] == s.last());
                }
            } else {
                assert(kept_of(s)[i] == kept_of(t)[i]);
            }
        }
    }
}

/// Lowering a kept character keeps it and leaves no uppercase letter.
proof fn lemma_lower_kept(c: char)
    requires
        is_kept_char(c),
    ensures
        is_kept_char(lower_char(c)),
        !is_upper_char(lower_char(c)),
        is_digit_char(lower_char(c)) == is_digit_char(c),
{
}

/// Stripping keeps a per-character property, and leaves no digit in
/// front.
proof fn lemma_stripped_props(s: Seq<char>)
    requires
        forall|i: int|
            0 <= i < s.len() ==> is_kept_char(#[trigger] s[i]) && !is_upper_char(s[i]),
    ensures
        forall|i: int|
            0 <= i < stripped_of(s).len() ==> is_kept_char(#[trigger] stripped_of(s)[i])
                && !is_upper_char(stripped_of(s)[i]),
        stripped_of(s).len() > 0 ==> !is_digit_char(stripped_of(s)[0]),
    decreases s.len(),
{
    if s.len() > 0 && is_digit_char(s.first()) {
        let t = s.drop_first();
        assert(forall|i: int|
            0 <= i < t.len() ==> is_kept_char(#[trigger] t[i]) && !is_upper_char(t[i]));
        lemma_stripped_props(t);
    }
}

/// The normalizer's output is a valid slug: only lowercase letters,
/// digits and underscores, and it never begins with a digit.
pub proof fn lemma_safe_name_valid(s: Seq<char>)
    ensures
        forall|i: int|
            0 <= i < safe_name_spec(s).len() ==> is_safe_char(#[trigger] safe_name_spec(s)[i]),
        safe_name_spec(s).len() > 0 ==> !is_digit_char(safe_name_spec(s)[0]),
{
    let kept = kept_of(s);
    let lowered = lowered_of(kept);
    let stripped = stripped_of(lowered);
    lemma_kept_chars(s);
    assert forall|i: int| 0 <= i < lowered.len() implies is_kept_char(#[trigger] lowered[i])
        && !is_upper_char(lowered[i]) by {
        lemma_lower_kept(kept[i]);
    }
    lemma_stripped_props(lowered);
    assert forall|i: int| 0 <= i < safe_name_spec(s).len() implies is_safe_char(
        #[trigger] safe_name_spec(s)[i],
    ) by {
        assert(safe_name_spec(s)[i] == replace_char(stripped[i]));
    }
    if safe_name_spec(s).len() > 0 {
        assert(safe_name_spec(s)[0] == replace_char(stripped[0]));
    }
}

/// A sequence made only of kept characters passes the filter whole.
proof fn lemma_kept_identity(s: Seq<char>)
    requires
        forall|i: int| 0 <= i < s.len() ==> is_kept_char(#[trigger] s[i]),
    ensures
        kept_of(s) == s,
    decreases s.len(),
{
    if s.len() == 0 {
        assert(kept_of(s) =~= s);
    } else {
        let t = s.drop_last();
        assert(forall|i: int| 0 <= i < t.len() ==> is_kept_char(#[trigger] t[i]));
        lemma_kept_identity(t);
        assert(kept_of(s) =~= s);
    }
}

/// The normalizer is idempotent: normalizing a normalized name changes
/// nothing.
pub proof fn lemma_safe_name_idempotent(s: Seq<char>)
    ensures
        safe_name_spec(safe_name_spec(s)) == safe_name_spec(s),
{
    let t = safe_name_spec(s);
    lemma_safe_name_valid(s);
    assert(forall|i: int| 0 <= i < t.len() ==> is_kept_char(#[trigger] t[i]));
    lemma_kept_identity(t);
    assert(lowered_of(t) =~= t);
    if t.len() > 0 {
        assert(t.first() == t[0]);
    }
    assert(stripped_of(t) == t);
    assert(replaced_of(t) =~= t);
}

// ---------------------------------------------------------------------------
// Test fixture labels
// ---------------------------------------------------------------------------
/// The decimal digits of `n`, zero-padded on the left to two places.
pub open spec fn padded_digits(n: nat) -> Seq<char> {
    if n < 10 {
        seq!['0'] + dec_digits(n)
    } else {
        dec_digits(n)
    }
}

/// The deterministic label of the fixture at one-based position `n`.
pub open spec fn label_spec(n: nat) -> Seq<char> {
    "test_"@ + padded_digits(n)
}

/// Render the deterministic fixture label for one-based position `n`.
pub fn safe_label(n: u64) -> (r: String)
    ensures
        r@ == label_spec(n as nat),
{
    let mut out = "test_".to_owned();
    if n < 10 {
        push_char(&mut out, '0');
        push_decimal(&mut out, n);
        proof {
            assert("test_"@.push('0') + dec_digits(n as nat) =~= "test_"@ + (seq!['0']
                + dec_digits(n as nat)));
        }
    } else {
        push_decimal(&mut out, n);
    }
    out
}

/// Distinct one-based positions always get distinct labels, whatever
/// the fixtures' own names are.
pub proof fn lemma_safe_labels_distinct(m: nat, n: nat)
    requires
        m != n,
    ensures
        label_spec(m) != label_spec(n),
{
    crate::text::lemma_dec_digits_len(m);
    crate::text::lemma_dec_digits_len(n);
    crate::text::lemma_dec_digits_injective(m, n);
    let pm = padded_digits(m);
    let pn = padded_digits(n);
    if m < 10 && n < 10 {
        assert(pm[1] == dec_digits(m)[0]);
        assert(pn[1] == dec_digits(n)[0]);
        assert(dec_digits(m) =~= seq![dec_digits(m)[0]]);
        assert(dec_digits(n) =~= seq![dec_digits(n)[0]]);
        assert(pm != pn);
    } else if m < 10 {
        if pn.len() == 2 {
            crate::text::lemma_dec_digits_leading(n);
            assert(pm[0] == '0');
            assert(pm != pn);
        } else {
            assert(pm.len() != pn.len());
        }
    } else if n < 10 {
        if pm.len() == 2 {
            crate::text::lemma_dec_digits_leading(m);
            assert(pn[0] == '0');
            assert(pm != pn);
        } else {
            assert(pm.len() != pn.len());
        }
    } else {
        assert(pm != pn);
    }
    if label_spec(m) == label_spec(n) {
        let w = "test_"@.len() as int;
        assert(label_spec(m).len() == w + pm.len());
        assert(label_spec(n).len() == w + pn.len());
        assert(label_spec(m).len() == label_spec(n).len());
        assert(pm.len() == pn.len());
        assert forall|i: int| 0 <= i < pm.len() implies pm[i] == pn[i] by {
            assert(label_spec(m)[w + i] == pm[i]);
            assert(label_spec(n)[w + i] == pn[i]);
        }
        assert(pm =~= pn);
    }
}

// ---------------------------------------------------------------------------
// Puzzle data
// ---------------------------------------------------------------------------
/// One test-case descriptor as the session protocol reports it.
pub struct TestCase {
    pub index: usize,
    pub input_binary_id: usize,
    pub output_binary_id: usize,
    pub label: String,
}

/// One language the remote judge offers.
pub struct AvailableLanguage {
    pub id: String,
    pub name: String,
}

/// The puzzle a test session reports: title, HTML statement, ordered
/// test-case descriptors, the judge's language list and a stub snippet.
pub struct Question {
    pub title: String,
    pub statement: String,
    pub test_cases: Vec<TestCase>,
    pub available_languages: Vec<AvailableLanguage>,
    pub stub_generator: String,
}

/// The wrapper the session protocol places a `Question` in.
pub struct CurrentQuestion {
    pub question: Question,
}

/// One fully resolved test fixture.
pub struct GameDataTest {
    pub label: String,
    pub safe_label: String,
    pub input_text: String,
    pub output_text: String,
}

/// Everything the generator needs about one puzzle.
pub struct GameData {
    pub safe_name: String,
    pub title: String,
    pub description: String,
    pub tests: Vec<GameDataTest>,
    pub stub_generator: String,
}

/// The text `html_to_markdown` returns for a given HTML text.
pub uninterp spec fn markdown_of(html: Seq<char>) -> Seq<char>;

/// Relies on mdka::html_to_markdown: the plain-text rendering it
/// returns depends on the HTML text alone.
#[verifier::external_body]
fn render_markdown(html: &str) -> (r: String)
    ensures
        r@ == markdown_of(html@),
{
    mdka::html_to_markdown(html)
}

impl GameData {
    /// Assemble the puzzle data from a fetched question and the already
    /// fetched input and output text of each of its test cases, in the
    /// question's own order.
    pub fn new(question: Question, fetched: Vec<(String, String)>) -> (r: GameData)
        requires
            fetched@.len() == question.test_cases@.len(),
        ensures
            r.safe_name@ == Seq::<char>::empty(),
            r.title == question.title,
            r.description@ == markdown_of(question.statement@),
            r.stub_generator == question.stub_generator,
            r.tests@.len() == question.test_cases@.len(),
            forall|i: int|
                0 <= i < r.tests@.len() ==> {
                    &&& (#[trigger] r.tests@[i]).label == question.test_cases@[i].label
                    &&& r.tests@[i].safe_label@ == label_spec((i + 1) as nat)
                    &&& r.tests@[i].input_text == fetched@[i].0
                    &&& r.tests@[i].output_text == fetched@[i].1
                },
    {
        let mut tests: Vec<GameDataTest> = Vec::new();
        let count = question.test_cases.len();
        let mut i: usize = 0;
        while i < count
            invariant
                i <= count,
                count == question.test_cases@.len(),
                fetched@.len() == question.test_cases@.len(),
                tests@.len() == i,
                forall|k: int|
                    0 <= k < i ==> {
                        &&& (#[trigger] tests@[k]).label == question.test_cases@[k].label
                        &&& tests@[k].safe_label@ == label_spec((k + 1) as nat)
                        &&& tests@[k].input_text == fetched@[k].0
                        &&& tests@[k].output_text == fetched@[k].1
                    },
            decreases count - i,
        {
            let label = question.test_cases[i].label.clone();
            let input_text = fetched[i].0.clone();
            let output_text = fetched[i].1.clone();
            tests.push(
                GameDataTest {
                    label,
                    safe_label: safe_label((i as u64) + 1),
                    input_text,
                    output_text,
                },
            );
            i = i + 1;
        }
        let description = render_markdown(question.statement.as_str());
        GameData {
            safe_name: String::new(),
            title: question.title,
            description,
            tests,
            stub_generator: question.stub_generator,
        }
    }

    /// Set the project slug from the puzzle's raw name; every other
    /// field stays as it was.
    pub fn set_safe_name(&mut self, name: &str)
        ensures
            final(self).safe_name@ == safe_name_spec(name@),
            final(self).title == old(self).title,
            final(self).description == old(self).description,
            final(self).tests == old(self).tests,
            final(self).stub_generator == old(self).stub_generator,
    {
        self.safe_name = safe_name(name);
    }
}

} // verus!
