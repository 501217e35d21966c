//! The weekly digest: which log notes it reads (today and the seven days
//! before), how it quotes them, the prompt and request sent to Gemini, the text
//! posted, and the channel it is posted to.
use vstd::prelude::*;
use crate::gemini_api::{
    candidate_text, first_candidate_text, generate_content_url, gemini_url, text_request,
    text_request_view, DIGEST_MODEL,
};
use crate::json::{Json, JsonV};
use crate::text::{copy_text, decimal, push_text};
use crate::vault_io::{date_heading, date_text, days_back, days_before, LogDate, MIN_YEAR};

verus! {

/// How many days before today the digest looks back.
pub const DIGEST_DAYS: u32 = 7;

/// The text posted when no digest could be generated.
pub open spec fn digest_fallback() -> Seq<char> {
    "Failed to generate digest."@
}

/// The quoted log of one day: a heading with the date, the note, a blank line.
pub open spec fn digest_section_text(date: (int, int, int), content: Seq<char>) -> Seq<char> {
    "--- Log for "@ + date_text(date) + " ---\n"@ + content + "\n\n"@
}

/// A day's section quotes its log note whole and verbatim: after the heading
/// `--- Log for <date> ---` and a line break comes every character of the
/// note, in order, and then two line breaks; so different notes of one day
/// give different sections.
pub proof fn lemma_section_quotes_whole_note(date: (int, int, int), content: Seq<char>, other: Seq<char>)
    ensures
        ({
            let heading = "--- Log for "@ + date_text(date) + " ---\n"@;
            let s = digest_section_text(date, content);
            &&& s.len() == heading.len() + content.len() + 2
            &&& s.take(heading.len() as int) == heading
            &&& s.subrange(heading.len() as int, (heading.len() + content.len()) as int) == content
            &&& s.skip((heading.len() + content.len()) as int) == "\n\n"@
        }),
        digest_section_text(date, content) == digest_section_text(date, other) ==> content == other,
{
    reveal_strlit("\n\n");
    let heading = "--- Log for "@ + date_text(date) + " ---\n"@;
    let s = digest_section_text(date, content);
    assert(s =~= heading + content + "\n\n"@);
    assert(s.take(heading.len() as int) =~= heading);
    assert(s.subrange(heading.len() as int, (heading.len() + content.len()) as int) =~= content);
    assert(s.skip((heading.len() + content.len()) as int) =~= "\n\n"@);
    let t = digest_section_text(date, other);
    assert(t =~= heading + other + "\n\n"@);
    if s == t {
        assert(content.len() == other.len());
        assert(t.subrange(heading.len() as int, (heading.len() + other.len()) as int) =~= other);
    }
}

/// The prompt that asks for the digest of the quoted logs.
pub open spec fn digest_prompt_text(logs: Seq<char>) -> Seq<char> {
    "Here are my logs for the past 7 days:\n\n"@ + logs
        + "\n\nIdentify 3 core patterns and 1 crucial objective for today. Format nicely."@
}

/// The text posted for a reply body (`None` when no body could be read).
pub open spec fn digest_text_view(body: Option<JsonV>) -> Seq<char> {
    match body {
        Some(b) => match candidate_text(b) {
            Some(t) => t,
            None => digest_fallback(),
        },
        None => digest_fallback(),
    }
}

/// Whether `c` is an ASCII decimal digit.
pub open spec fn is_digit(c: char) -> bool {
    '0' <= c && c <= '9'
}

/// The value of a string of decimal digits.
pub open spec fn digits_value(s: Seq<char>) -> int
    decreases s.len(),
{
    if s.len() == 0 {
        0
    } else {
        digits_value(s.drop_last()) * 10 + (s.last() as int - '0' as int)
    }
}

/// What `str::parse::<u64>` gives: an optional `+`, then one or more decimal
/// digits whose value fits in 64 bits; anything else is refused.
pub open spec fn parsed_u64(s: Seq<char>) -> Option<u64> {
    let body = if s.len() > 0 && s[0] == '+' {
        s.skip(1)
    } else {
        s
    };
    if body.len() > 0 && (forall|i: int| 0 <= i < body.len() ==> is_digit(#[trigger] body[i]))
        && digits_value(body) <= u64::MAX {
        Some(digits_value(body) as u64)
    } else {
        None
    }
}

/// std's `str::parse::<u64>` (`FromStr for u64`): per its documentation, an
/// optional `+` followed by decimal digits only, in range; any other text is an
/// error.
#[verifier::external_body]
fn parse_u64_text(s: &str) -> (r: Option<u64>)
    ensures
        r == parsed_u64(s@),
{
    s.parse::<u64>().ok()
}

/// The days whose log notes the digest reads: today first, then each of the
/// seven days before.
pub fn digest_dates(today: &LogDate) -> (r: Vec<LogDate>)
    requires
        days_back(today@, DIGEST_DAYS as nat).0 >= MIN_YEAR,
    ensures
        r@.len() == DIGEST_DAYS + 1,
        forall|i: int| 0 <= i < r@.len() ==> #[trigger] r@[i]@ == days_back(today@, i as nat),
{
    let mut r: Vec<LogDate> = Vec::new();
    let mut i: u32 = 0;
    while i <= DIGEST_DAYS
        invariant
            i <= DIGEST_DAYS + 1,
            days_back(today@, DIGEST_DAYS as nat).0 >= MIN_YEAR,
            r@.len() == i,
            forall|j: int| 0 <= j < i ==> #[trigger] r@[j]@ == days_back(today@, j as nat),
        decreases DIGEST_DAYS + 1 - i,
    {
        proof {
            crate::vault_io::lemma_days_back_year_monotone(today@, i as nat, DIGEST_DAYS as nat);
        }
        r.push(days_before(today, i));
        i = i + 1;
    }
    r
}

/// The quoted log note `content` of the day `date`.
pub fn digest_section(date: &LogDate, content: &str) -> (r: String)
    ensures
        r@ == digest_section_text(date@, content@),
{
    let mut s = copy_text("--- Log for ");
    let heading = date_heading(date);
    push_text(&mut s, heading.as_str());
    push_text(&mut s, " ---\n");
    push_text(&mut s, content);
    push_text(&mut s, "\n\n");
    s
}

/// The prompt for the digest of the quoted logs; `None` when no log was found,
/// in which case no digest is made.
pub fn digest_prompt(logs: &str) -> (r: Option<String>)
    ensures
        logs@.len() == 0 ==> r is None,
        logs@.len() > 0 ==> (r matches Some(p) && p@ == digest_prompt_text(logs@)),
{
    if logs.is_empty() {
        return None;
    }
    let mut s = copy_text("Here are my logs for the past 7 days:\n\n");
    push_text(&mut s, logs);
    push_text(
        &mut s,
        "\n\nIdentify 3 core patterns and 1 crucial objective for today. Format nicely.",
    );
    Some(s)
}

/// The endpoint and the request body that ask for the digest.
pub fn digest_request(api_key: &str, prompt: &str) -> (r: (String, Json))
    ensures
        r.0@ == gemini_url(DIGEST_MODEL@, api_key@),
        r.1@ == text_request_view(prompt@),
{
    (generate_content_url(DIGEST_MODEL, api_key), text_request(prompt))
}

/// The text posted: the first candidate's text of the reply, or a note that no
/// digest could be generated.
pub fn digest_text(body: Option<&Json>) -> (r: String)
    ensures
        r@ == digest_text_view(
            match body {
                Some(b) => Some(b@),
                None => None,
            },
        ),
{
    match body {
        Some(b) => match first_candidate_text(b) {
            Some(t) => t,
            None => copy_text("Failed to generate digest."),
        },
        None => copy_text("Failed to generate digest."),
    }
}

/// The channel id configured for the digest, when it is a decimal number.
pub fn digest_channel_id(value: &str) -> (r: Option<u64>)
    ensures
        r == parsed_u64(value@),
{
    parse_u64_text(value)
}

proof fn lemma_digit_value(d: nat)
    requires
        d < 10,
    ensures
        crate::text::digit_char(d) as int - '0' as int == d,
        is_digit(crate::text::digit_char(d)),
        crate::text::digit_char(d) != '+',
{
}

proof fn lemma_digits_of_decimal(n: nat)
    ensures
        digits_value(decimal(n)) == n,
        forall|i: int| 0 <= i < decimal(n).len() ==> is_digit(#[trigger] decimal(n)[i]),
        decimal(n).len() > 0,
        decimal(n)[0] != '+',
    decreases n,
{
    if n < 10 {
        assert(decimal(n) == seq![crate::text::digit_char(n)]);
        assert(decimal(n).drop_last() =~= Seq::<char>::empty());
        lemma_digit_value(n);
        assert(digits_value(decimal(n)) == digits_value(decimal(n).drop_last()) * 10 + (decimal(n).last() as int - '0' as int));
    } else {
        lemma_digit_value(n % 10);
        lemma_digits_of_decimal(n / 10);
        let d = decimal(n);
        assert(d.drop_last() =~= decimal(n / 10));
        assert forall|i: int| 0 <= i < d.len() implies is_digit(#[trigger] d[i]) by {
            if i < d.len() - 1 {
                assert(d[i] == decimal(n / 10)[i]);
            }
        }
        assert(d[0] == decimal(n / 10)[0]);
        assert(d.last() == crate::text::digit_char(n % 10));
        assert(digits_value(d) == digits_value(d.drop_last()) * 10 + (d.last() as int - '0' as int));
        assert(digits_value(d) == (n / 10) * 10 + n % 10);
    }
}

/// A channel id written in decimal reads back as the same id.
pub proof fn lemma_channel_id_round_trip(id: u64)
    ensures
        parsed_u64(decimal(id as nat)) == Some(id),
{
    lemma_digits_of_decimal(id as nat);
}

} // verus!
