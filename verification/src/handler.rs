//! The decisions of the Discord message handler: which messages are ingested,
//! the context kept for a thread, the state handed to the ingestion node, what
//! a classification leads to (a clarifying question, a vault search, a link
//! crawl, or an entry in the daily log with backlinks and embedded attachments),
//! and the raw log entry written when that fails.
use vstd::prelude::*;
use crate::gemini::{IntentEnum, UrielClassification};
use crate::gemini_api::{gemini_url, generate_content_url, text_request, text_request_view, ANSWER_MODEL};
use crate::json::{object2, object3, string_array, Json, JsonV};
use crate::text::{copy_text, push_text, texts};

verus! {

/// The channel whose messages (and threads) are ingested as notes.
pub const DROPBOX_CHANNEL_ID: u64 = 1111111111111111111;

/// The channel whose messages (and threads) are ingested for discussion.
pub const DISCUSS_CHANNEL_ID: u64 = 2222222222222222222;

/// The channel that receives the digest.
pub const DIGEST_CHANNEL_ID: u64 = 3333333333333333333;

/// How many recent messages of a thread are kept as context.
pub const THREAD_WINDOW: usize = 5;

/// How many messages of a thread are fetched when none are cached.
pub const THREAD_FETCH_LIMIT: u8 = 5;

/// Seconds a thread's context stays cached.
pub const THREAD_CACHE_TTL_SECS: u64 = 3600;

/// The name of the thread opened to ask for a clarification.
pub const CLARIFICATION_THREAD_NAME: &'static str = "Clarification Needed";

/// The question asked in that thread.
pub const CLARIFICATION_QUESTION: &'static str = "Could you clarify which entity you mean?";

/// Which of the watched channels a message belongs to.
#[derive(PartialEq, Eq, Structural, Clone, Copy, Debug)]
pub enum ChannelKind {
    Dropbox,
    Discuss,
    Other,
}

/// What to do with a classified message.
#[derive(Debug, PartialEq, Eq)]
pub enum MessagePlan {
    /// Open a thread and ask which entity is meant.
    AskClarification,
    /// Search the vault for the term and answer from the results.
    Query(String),
    /// Crawl the links of the note and answer from them.
    Crawl(String),
    /// Append the text to the daily log.
    AppendLog(String),
}

/// A step in handling an ingested message once the classifier has run.
#[derive(Debug, PartialEq, Eq)]
pub enum HandlingStep {
    /// Carry out the plan made from the classification.
    Carry(MessagePlan),
    /// Append this raw entry to the daily log, as nothing else handled the message.
    AppendFallback(String),
    /// Nothing is left to do.
    Finish,
}

/// The kind of a channel: by its own id, or else by the id of its parent
/// channel (threads live under a channel).
pub open spec fn channel_kind_of(channel_id: u64, parent_id: Option<u64>) -> ChannelKind {
    if channel_id == DROPBOX_CHANNEL_ID {
        ChannelKind::Dropbox
    } else if channel_id == DISCUSS_CHANNEL_ID {
        ChannelKind::Discuss
    } else {
        match parent_id {
            Some(p) => if p == DROPBOX_CHANNEL_ID {
                ChannelKind::Dropbox
            } else if p == DISCUSS_CHANNEL_ID {
                ChannelKind::Discuss
            } else {
                ChannelKind::Other
            },
            None => ChannelKind::Other,
        }
    }
}

/// The recent messages of a thread after `newest` arrives: newest first, at
/// most [`THREAD_WINDOW`] of them.
pub open spec fn window_after<T>(messages: Seq<T>, newest: T) -> Seq<T> {
    seq![newest] + if messages.len() >= THREAD_WINDOW {
        messages.take(THREAD_WINDOW - 1)
    } else {
        messages
    }
}

/// std's `Debug` rendering of a string (quoted, with escapes); named, as its
/// escaping rules follow Unicode tables.
pub uninterp spec fn debug_text(s: Seq<char>) -> Seq<char>;

/// `items` with `sep` between each two.
pub open spec fn joined(items: Seq<Seq<char>>, sep: Seq<char>) -> Seq<char>
    decreases items.len(),
{
    if items.len() == 0 {
        Seq::empty()
    } else if items.len() == 1 {
        items[0]
    } else {
        joined(items.drop_last(), sep) + sep + items.last()
    }
}

/// std's `Debug` rendering of a list of strings: `["a", "b"]`.
pub open spec fn debug_list(items: Seq<Seq<char>>) -> Seq<char> {
    "["@ + joined(items.map_values(|s: Seq<char>| debug_text(s)), ", "@) + "]"@
}

/// The message text with the thread's recent messages in front.
pub open spec fn thread_context_text(contents: Seq<Seq<char>>, message: Seq<char>) -> Seq<char> {
    "Context: "@ + debug_list(contents) + "\nMessage: "@ + message
}

/// The parameters of the ingestion node: the text, the known entities, and
/// the first stored attachment when there is one.
pub open spec fn ingestion_params_view(
    text: Seq<char>,
    entities: Seq<Seq<char>>,
    file_paths: Seq<Seq<char>>,
) -> JsonV {
    let base = seq![
        ("input_text"@, JsonV::Str(text)),
        ("known_entities"@, JsonV::Array(entities.map_values(|e: Seq<char>| JsonV::Str(e)))),
    ];
    if file_paths.len() > 0 {
        JsonV::Object(base.push(("media_path"@, JsonV::Str(file_paths[0]))))
    } else {
        JsonV::Object(base)
    }
}

/// Whether `c` has a meaning in a regular expression (regex-syntax's list).
pub open spec fn is_meta(c: char) -> bool {
    c == '\\' || c == '.' || c == '+' || c == '*' || c == '?' || c == '(' || c == ')' || c == '|'
        || c == '[' || c == ']' || c == '{' || c == '}' || c == '^' || c == '$' || c == '#' || c
        == '&' || c == '-' || c == '~'
}

/// `s` with a `\` put before every regex meta character.
pub open spec fn escaped(s: Seq<char>) -> Seq<char>
    decreases s.len(),
{
    if s.len() == 0 {
        Seq::empty()
    } else {
        escaped(s.drop_last()) + if is_meta(s.last()) {
            seq!['\\', s.last()]
        } else {
            seq![s.last()]
        }
    }
}

/// Whether regex's `Regex::new` accepts `pattern`.
pub uninterp spec fn regex_compiles(pattern: Seq<char>) -> bool;

/// What regex's `replace_all` gives for the compiled `pattern` on `haystack`
/// with `replacement`.
pub uninterp spec fn regex_replace_all(
    pattern: Seq<char>,
    haystack: Seq<char>,
    replacement: Seq<char>,
) -> Seq<char>;

/// `text` after replacing every match of `pattern` with `replacement`, or
/// `text` itself when the pattern does not compile.
pub open spec fn replaced(pattern: Seq<char>, text: Seq<char>, replacement: Seq<char>) -> Seq<char> {
    if regex_compiles(pattern) {
        regex_replace_all(pattern, text, replacement)
    } else {
        text
    }
}

/// `text` with the entity, in any case, unwrapped from any brackets around it,
/// and then every whole-word, case-insensitive occurrence wrapped in `[[ ]]`.
pub open spec fn link_entity(text: Seq<char>, entity: Seq<char>) -> Seq<char> {
    let esc = escaped(entity);
    let unwrapped = replaced("(?i)\\[+"@ + esc + "\\]+"@, text, entity);
    replaced("(?i)\\b"@ + esc + "\\b"@, unwrapped, "[["@ + entity + "]]"@)
}

/// `text` with every entity linked, in the order given.
pub open spec fn backlinked(text: Seq<char>, entities: Seq<Seq<char>>) -> Seq<char>
    decreases entities.len(),
{
    if entities.len() == 0 {
        text
    } else {
        link_entity(backlinked(text, entities.drop_last()), entities.last())
    }
}

/// std's `Path::file_name` of a path, lossily as text, empty when it has none.
pub uninterp spec fn path_file_name(path: Seq<char>) -> Seq<char>;

/// The lines that embed the stored attachments: `\n![[<file name>]]` each.
pub open spec fn embeds(file_paths: Seq<Seq<char>>) -> Seq<char>
    decreases file_paths.len(),
{
    if file_paths.len() == 0 {
        Seq::empty()
    } else {
        embeds(file_paths.drop_last()) + "\n![["@ + path_file_name(file_paths.last()) + "]]"@
    }
}

/// What a classification leads to.
pub open spec fn plan_view(c: UrielClassification, file_paths: Seq<Seq<char>>) -> (int, Seq<char>) {
    match c.intent {
        IntentEnum::Disambiguate => (0, Seq::empty()),
        IntentEnum::Query => (1, c.formatted_content@),
        IntentEnum::Crawl => (2, c.formatted_content@),
        _ => (3, backlinked(c.formatted_content@, texts(c.entities_found@)) + embeds(file_paths)),
    }
}

/// The view of a plan, in the form of [`plan_view`].
pub open spec fn plan_of(p: MessagePlan) -> (int, Seq<char>) {
    match p {
        MessagePlan::AskClarification => (0, Seq::empty()),
        MessagePlan::Query(t) => (1, t@),
        MessagePlan::Crawl(t) => (2, t@),
        MessagePlan::AppendLog(t) => (3, t@),
    }
}

/// The view of a handling step: a plan in the form of [`plan_of`], then
/// `(4, entry)` for the raw entry and `(5, "")` for the end.
pub open spec fn step_of(s: HandlingStep) -> (int, Seq<char>) {
    match s {
        HandlingStep::Carry(p) => plan_of(p),
        HandlingStep::AppendFallback(t) => (4, t@),
        HandlingStep::Finish => (5, Seq::empty()),
    }
}

/// Whether a step carries out a plan made from a classification.
pub open spec fn carries_plan(step: (int, Seq<char>)) -> bool {
    0 <= step.0 <= 3
}

/// The raw log entry of a message: its text and the embeds of its attachments.
pub open spec fn fallback_view(text: Seq<char>, file_paths: Seq<Seq<char>>) -> (int, Seq<char>) {
    (4, text + embeds(file_paths))
}

/// The end of the handling.
pub open spec fn finish_view() -> (int, Seq<char>) {
    (5, Seq::empty())
}

/// The first step once the classifier has run: the plan made from the
/// classification, or the raw entry when no classification could be read.
pub open spec fn first_step_view(
    c: Option<UrielClassification>,
    text: Seq<char>,
    file_paths: Seq<Seq<char>>,
) -> (int, Seq<char>) {
    match c {
        Some(c) => plan_view(c, file_paths),
        None => fallback_view(text, file_paths),
    }
}

/// The step after `step`, which `succeeded` or not: a plan carried out without
/// success leads to the raw entry; anything else ends the handling.
pub open spec fn next_step_view(
    step: (int, Seq<char>),
    succeeded: bool,
    text: Seq<char>,
    file_paths: Seq<Seq<char>>,
) -> (int, Seq<char>) {
    if carries_plan(step) && !succeeded {
        fallback_view(text, file_paths)
    } else {
        finish_view()
    }
}

/// The prompt that answers a question from the vault search results.
pub open spec fn query_prompt_text(question: Seq<char>, results: Seq<char>) -> Seq<char> {
    "User asked: "@ + question + "\n\nSearch Results:\n"@ + results
        + "\n\nSynthesize a helpful answer based on the search results. If the results are empty or irrelevant, say so."@
}

/// The prompt that describes a note's connections from the crawl report.
pub open spec fn crawl_prompt_text(question: Seq<char>, results: Seq<char>) -> Seq<char> {
    "User asked to explore connections for: "@ + question + "\n\nConnection Crawl Results:\n"@
        + results
        + "\n\nSynthesize a helpful answer based on these connections. Describe what this note links to and what links back to it."@
}

/// The kind of the channel with `channel_id`, whose parent channel (looked up
/// only when the id itself is not a watched channel) is `parent_id`.
pub fn channel_kind(channel_id: u64, parent_id: Option<u64>) -> (r: ChannelKind)
    ensures
        r == channel_kind_of(channel_id, parent_id),
{
    if channel_id == DROPBOX_CHANNEL_ID {
        ChannelKind::Dropbox
    } else if channel_id == DISCUSS_CHANNEL_ID {
        ChannelKind::Discuss
    } else {
        match parent_id {
            Some(p) => if p == DROPBOX_CHANNEL_ID {
                ChannelKind::Dropbox
            } else if p == DISCUSS_CHANNEL_ID {
                ChannelKind::Discuss
            } else {
                ChannelKind::Other
            },
            None => ChannelKind::Other,
        }
    }
}

/// Whether the parent channel must be looked up to know the kind.
pub fn needs_parent_lookup(channel_id: u64) -> (r: bool)
    ensures
        r == (channel_id != DROPBOX_CHANNEL_ID && channel_id != DISCUSS_CHANNEL_ID),
        !r ==> forall|p: Option<u64>| #[trigger] channel_kind_of(channel_id, p) == channel_kind_of(
            channel_id,
            None,
        ),
{
    channel_id != DROPBOX_CHANNEL_ID && channel_id != DISCUSS_CHANNEL_ID
}

/// Whether a message is ingested: it is in (or under) a watched channel and not
/// written by a bot. Messages in the digest channel pass the first check but
/// are otherwise left alone.
pub fn should_ingest(kind: ChannelKind, channel_id: u64, author_is_bot: bool) -> (r: bool)
    ensures
        r == (kind != ChannelKind::Other && !author_is_bot),
{
    let watched = kind == ChannelKind::Dropbox || kind == ChannelKind::Discuss;
    if !watched && channel_id != DIGEST_CHANNEL_ID {
        return false;
    }
    if author_is_bot {
        return false;
    }
    watched
}

/// Puts the newest message in front of a thread's recent messages, keeping at
/// most [`THREAD_WINDOW`].
pub fn push_to_thread_window<T>(messages: &mut Vec<T>, newest: T)
    ensures
        final(messages)@ == window_after(old(messages)@, newest),
{
    if messages.len() >= THREAD_WINDOW {
        messages.truncate(THREAD_WINDOW - 1);
    }
    messages.insert(0, newest);
    assert(final(messages)@ =~= window_after(old(messages)@, newest));
}

/// std's `Debug` formatting of a string (`format!("{:?}", s)`).
#[verifier::external_body]
fn debug_quoted(s: &str) -> (r: String)
    ensures
        r@ == debug_text(s@),
{
    format!("{:?}", s)
}

/// A list written as std's `Debug` writes one, from the already rendered
/// elements: `[` then the elements separated by `, ` then `]`.
pub fn debug_list_of(rendered: &Vec<String>) -> (r: String)
    ensures
        r@ == "["@ + joined(texts(rendered@), ", "@) + "]"@,
{
    let ghost shown = texts(rendered@);
    let mut body = String::new();
    let mut i: usize = 0;
    while i < rendered.len()
        invariant
            i <= rendered.len(),
            shown == texts(rendered@),
            body@ == joined(shown.take(i as int), ", "@),
        decreases rendered.len() - i,
    {
        assert(shown[i as int] == rendered@[i as int]@);
        assert(shown.take(i + 1).drop_last() =~= shown.take(i as int));
        if i > 0 {
            push_text(&mut body, ", ");
        } else {
            assert(shown.take(1) =~= seq![shown[0]]);
        }
        push_text(&mut body, rendered[i].as_str());
        i = i + 1;
    }
    assert(shown.take(rendered.len() as int) =~= shown);
    let mut r = copy_text("[");
    push_text(&mut r, body.as_str());
    push_text(&mut r, "]");
    r
}

/// std's `Debug` formatting of a list of strings.
pub fn debug_strings(items: &Vec<String>) -> (r: String)
    ensures
        r@ == debug_list(texts(items@)),
{
    let mut rendered: Vec<String> = Vec::new();
    let mut i: usize = 0;
    while i < items.len()
        invariant
            i <= items.len(),
            texts(rendered@) == texts(items@).take(i as int).map_values(
                |s: Seq<char>| debug_text(s),
            ),
        decreases items.len() - i,
    {
        let ghost before = rendered@;
        rendered.push(debug_quoted(items[i].as_str()));
        assert(texts(rendered@) =~= texts(before).push(rendered@.last()@));
        assert(texts(items@).take(i + 1).map_values(|s: Seq<char>| debug_text(s)) =~= texts(
            items@,
        ).take(i as int).map_values(|s: Seq<char>| debug_text(s)).push(
            debug_text(items@[i as int]@),
        ));
        i = i + 1;
    }
    assert(texts(items@).take(items.len() as int) =~= texts(items@));
    debug_list_of(&rendered)
}

/// The message text with the thread's recent messages (newest first) in front.
pub fn thread_context(contents: &Vec<String>, message: &str) -> (r: String)
    ensures
        r@ == thread_context_text(texts(contents@), message@),
{
    let mut r = copy_text("Context: ");
    let list = debug_strings(contents);
    push_text(&mut r, list.as_str());
    push_text(&mut r, "\nMessage: ");
    push_text(&mut r, message);
    r
}

/// The parameters of the ingestion node.
pub fn ingestion_params(text: &str, entities: &Vec<String>, file_paths: &Vec<String>) -> (r: Json)
    ensures
        r@ == ingestion_params_view(text@, texts(entities@), texts(file_paths@)),
{
    let known = string_array(entities);
    assert(entities@.map_values(|t: String| JsonV::Str(t@)) =~= texts(entities@).map_values(
        |e: Seq<char>| JsonV::Str(e),
    ));
    if file_paths.len() > 0 {
        let r = object3(
            "input_text",
            Json::text(text),
            "known_entities",
            known,
            "media_path",
            Json::text(file_paths[0].as_str()),
        );
        let ghost base = seq![
            ("input_text"@, JsonV::Str(text@)),
            ("known_entities"@, JsonV::Array(texts(entities@).map_values(|e: Seq<char>| JsonV::Str(e)))),
        ];
        assert(texts(file_paths@)[0] == file_paths@[0]@);
        assert(seq![
            ("input_text"@, JsonV::Str(text@)),
            ("known_entities"@, JsonV::Array(texts(entities@).map_values(|e: Seq<char>| JsonV::Str(e)))),
            ("media_path"@, JsonV::Str(file_paths@[0]@)),
        ] =~= base.push(("media_path"@, JsonV::Str(texts(file_paths@)[0]))));
        r
    } else {
        object2("input_text", Json::text(text), "known_entities", known)
    }
}

/// A regular expression together with its source text.
struct CompiledPattern {
    source: String,
    compiled: regex::Regex,
}

#[verifier::external_type_specification]
#[verifier::external_body]
pub struct ExRegex(regex::Regex);

/// regex's `escape`: puts a `\` before every meta character, as regex-syntax's
/// `escape_into` does with its `is_meta_character` list.
#[verifier::external_body]
fn regex_escape(s: &str) -> (r: String)
    ensures
        r@ == escaped(s@),
{
    regex::escape(s)
}

/// regex's `Regex::new`: the compiled expression, or `None` when the crate
/// refuses the pattern.
#[verifier::external_body]
fn compile_pattern(pattern: &str) -> (r: Option<CompiledPattern>)
    ensures
        r is Some <==> regex_compiles(pattern@),
        r matches Some(p) ==> p.source@ == pattern@,
{
    match regex::Regex::new(pattern) {
        Ok(compiled) => Some(CompiledPattern { source: pattern.to_string(), compiled }),
        Err(_) => None,
    }
}

/// regex's `Regex::replace_all` with a string replacement (where `$name`
/// refers to a capture group).
#[verifier::external_body]
fn replace_all_matches(p: &CompiledPattern, haystack: &str, replacement: &str) -> (r: String)
    ensures
        r@ == regex_replace_all(p.source@, haystack@, replacement@),
{
    p.compiled.replace_all(haystack, replacement).into_owned()
}

fn replace_if_compiles(pattern: &str, text: String, replacement: &str) -> (r: String)
    ensures
        r@ == replaced(pattern@, text@, replacement@),
{
    match compile_pattern(pattern) {
        Some(p) => replace_all_matches(&p, text.as_str(), replacement),
        None => text,
    }
}

/// The pattern that matches the (escaped) entity, in any case, inside any run
/// of brackets: `(?i)\[+<escaped>\]+`.
pub fn unwrap_pattern(escaped_entity: &str) -> (r: String)
    ensures
        r@ == "(?i)\\[+"@ + escaped_entity@ + "\\]+"@,
{
    let mut p = copy_text("(?i)\\[+");
    push_text(&mut p, escaped_entity);
    push_text(&mut p, "\\]+");
    p
}

/// The pattern that matches the (escaped) entity as a whole word, in any
/// case: `(?i)\b<escaped>\b`.
pub fn wrap_pattern(escaped_entity: &str) -> (r: String)
    ensures
        r@ == "(?i)\\b"@ + escaped_entity@ + "\\b"@,
{
    let mut p = copy_text("(?i)\\b");
    push_text(&mut p, escaped_entity);
    push_text(&mut p, "\\b");
    p
}

/// The link to an entity: `[[entity]]`.
pub fn entity_link(entity: &str) -> (r: String)
    ensures
        r@ == "[["@ + entity@ + "]]"@,
{
    let mut link = copy_text("[[");
    push_text(&mut link, entity);
    push_text(&mut link, "]]");
    link
}

/// Links one entity in `text`.
pub fn link_entity_in(text: String, entity: &str) -> (r: String)
    ensures
        r@ == link_entity(text@, entity@),
{
    let esc = regex_escape(entity);
    let strip = unwrap_pattern(esc.as_str());
    let unwrapped = replace_if_compiles(strip.as_str(), text, entity);
    let wrap = wrap_pattern(esc.as_str());
    let link = entity_link(entity);
    replace_if_compiles(wrap.as_str(), unwrapped, link.as_str())
}

/// `text` with every entity linked as `[[entity]]`.
pub fn backlink_entities(text: &str, entities: &Vec<String>) -> (r: String)
    ensures
        r@ == backlinked(text@, texts(entities@)),
{
    let mut out = copy_text(text);
    let mut i: usize = 0;
    while i < entities.len()
        invariant
            i <= entities.len(),
            out@ == backlinked(text@, texts(entities@).take(i as int)),
        decreases entities.len() - i,
    {
        assert(texts(entities@).take(i + 1).drop_last() =~= texts(entities@).take(i as int));
        out = link_entity_in(out, entities[i].as_str());
        i = i + 1;
    }
    assert(texts(entities@).take(entities.len() as int) =~= texts(entities@));
    out
}

/// std's `Path::new(path).file_name()`, lossily as text and empty when there is
/// none. As its documentation says, that is the final component: for a path
/// that ends in `/` and a plain name (no separator, not `.` or `..`), the name.
/// What it gives for other paths (normalised `.` components, trailing
/// separators) is left to the name.
#[verifier::external_body]
fn file_name_of(path: &str) -> (r: String)
    ensures
        r@ == path_file_name(path@),
        forall|dir: Seq<char>, name: Seq<char>|
            path@ == dir + seq!['/'] + name && name.len() > 0 && name != "."@ && name != ".."@
                && (forall|i: int| 0 <= i < name.len() ==> name[i] != '/' && name[i] != '\\')
                ==> r@ == name,
{
    std::path::Path::new(path).file_name().unwrap_or_default().to_string_lossy().into_owned()
}

/// The line that embeds an attachment with the file name `name`: `\n![[name]]`.
pub fn embed_line(name: &str) -> (r: String)
    ensures
        r@ == "\n![["@ + name@ + "]]"@,
{
    let mut line = copy_text("\n![[");
    push_text(&mut line, name);
    push_text(&mut line, "]]");
    line
}

/// The lines that embed the stored attachments in a log entry.
pub fn attachment_embeds(file_paths: &Vec<String>) -> (r: String)
    ensures
        r@ == embeds(texts(file_paths@)),
{
    let mut out = String::new();
    let mut i: usize = 0;
    while i < file_paths.len()
        invariant
            i <= file_paths.len(),
            out@ == embeds(texts(file_paths@).take(i as int)),
        decreases file_paths.len() - i,
    {
        assert(texts(file_paths@).take(i + 1).drop_last() =~= texts(file_paths@).take(i as int));
        let name = file_name_of(file_paths[i].as_str());
        let line = embed_line(name.as_str());
        push_text(&mut out, line.as_str());
        i = i + 1;
    }
    assert(texts(file_paths@).take(file_paths.len() as int) =~= texts(file_paths@));
    out
}

/// What a classification leads to: a question back for an ambiguous message, a
/// search for a query, a crawl, or else the log entry with backlinks and embeds.
pub fn plan_for(c: &UrielClassification, file_paths: &Vec<String>) -> (r: MessagePlan)
    ensures
        plan_of(r) == plan_view(*c, texts(file_paths@)),
{
    match c.intent {
        IntentEnum::Disambiguate => MessagePlan::AskClarification,
        IntentEnum::Query => MessagePlan::Query(copy_text(c.formatted_content.as_str())),
        IntentEnum::Crawl => MessagePlan::Crawl(copy_text(c.formatted_content.as_str())),
        _ => {
            let mut content = backlink_entities(c.formatted_content.as_str(), &c.entities_found);
            let extra = attachment_embeds(file_paths);
            push_text(&mut content, extra.as_str());
            MessagePlan::AppendLog(content)
        },
    }
}

/// The raw log entry written when the message could not be handled otherwise:
/// the text and the embeds of its attachments.
pub fn fallback_entry(text: &str, file_paths: &Vec<String>) -> (r: String)
    ensures
        r@ == text@ + embeds(texts(file_paths@)),
{
    let mut out = copy_text(text);
    let extra = attachment_embeds(file_paths);
    push_text(&mut out, extra.as_str());
    out
}

/// The raw entry to write after a handled message, if one is needed: only
/// when the handling did not succeed.
pub fn entry_after(succeeded: bool, text: &str, file_paths: &Vec<String>) -> (r: Option<String>)
    ensures
        succeeded ==> r is None,
        !succeeded ==> (r matches Some(e) && e@ == text@ + embeds(texts(file_paths@))),
{
    if succeeded {
        None
    } else {
        Some(fallback_entry(text, file_paths))
    }
}

/// The first step in handling a message once the classifier has run: carry
/// out the plan made from `classification`, or, when none could be read,
/// append the raw entry.
pub fn first_handling_step(
    classification: &Option<UrielClassification>,
    text: &str,
    file_paths: &Vec<String>,
) -> (r: HandlingStep)
    ensures
        step_of(r) == first_step_view(*classification, text@, texts(file_paths@)),
{
    match classification {
        Some(c) => HandlingStep::Carry(plan_for(c, file_paths)),
        None => HandlingStep::AppendFallback(fallback_entry(text, file_paths)),
    }
}

/// The step after `step`, given whether it succeeded: a plan that was not
/// carried out leads to the raw entry; the raw entry, and a plan carried out,
/// end the handling.
pub fn next_handling_step(
    step: &HandlingStep,
    succeeded: bool,
    text: &str,
    file_paths: &Vec<String>,
) -> (r: HandlingStep)
    ensures
        step_of(r) == next_step_view(step_of(*step), succeeded, text@, texts(file_paths@)),
{
    match step {
        HandlingStep::Carry(_) => match entry_after(succeeded, text, file_paths) {
            Some(entry) => HandlingStep::AppendFallback(entry),
            None => HandlingStep::Finish,
        },
        _ => HandlingStep::Finish,
    }
}

/// The prompt that answers a question from the vault search results.
pub fn query_prompt(question: &str, results: &str) -> (r: String)
    ensures
        r@ == query_prompt_text(question@, results@),
{
    let mut s = copy_text("User asked: ");
    push_text(&mut s, question);
    push_text(&mut s, "\n\nSearch Results:\n");
    push_text(&mut s, results);
    push_text(
        &mut s,
        "\n\nSynthesize a helpful answer based on the search results. If the results are empty or irrelevant, say so.",
    );
    s
}

/// The prompt that describes a note's connections from the crawl report.
pub fn crawl_prompt(question: &str, results: &str) -> (r: String)
    ensures
        r@ == crawl_prompt_text(question@, results@),
{
    let mut s = copy_text("User asked to explore connections for: ");
    push_text(&mut s, question);
    push_text(&mut s, "\n\nConnection Crawl Results:\n");
    push_text(&mut s, results);
    push_text(
        &mut s,
        "\n\nSynthesize a helpful answer based on these connections. Describe what this note links to and what links back to it.",
    );
    s
}

/// The endpoint and body of the request that answers with `prompt`.
pub fn answer_request(api_key: &str, prompt: &str) -> (r: (String, Json))
    ensures
        r.0@ == gemini_url(ANSWER_MODEL@, api_key@),
        r.1@ == text_request_view(prompt@),
{
    (generate_content_url(ANSWER_MODEL, api_key), text_request(prompt))
}

/// The slash commands registered for the bot: name and description.
pub fn slash_commands() -> (r: Vec<(String, String)>)
    ensures
        r@.map_values(|p: (String, String)| (p.0@, p.1@)) == seq![
            ("note"@, "Create a note"@),
            ("draft"@, "Create a draft"@),
            ("event"@, "Create an event"@),
        ],
{
    let r = vec![
        (copy_text("note"), copy_text("Create a note")),
        (copy_text("draft"), copy_text("Create a draft")),
        (copy_text("event"), copy_text("Create an event")),
    ];
    assert(r@.map_values(|p: (String, String)| (p.0@, p.1@)) =~= seq![
        ("note"@, "Create a note"@),
        ("draft"@, "Create a draft"@),
        ("event"@, "Create an event"@),
    ]);
    r
}

/// A thread's context never holds more than [`THREAD_WINDOW`] messages: the
/// newest first, then the most recent of those seen before, in their order.
pub proof fn lemma_thread_window<T>(messages: Seq<T>, newest: T)
    ensures
        window_after(messages, newest).len() == if messages.len() + 1 < THREAD_WINDOW {
            messages.len() + 1
        } else {
            THREAD_WINDOW as nat
        },
        window_after(messages, newest).len() <= THREAD_WINDOW,
        window_after(messages, newest)[0] == newest,
        forall|i: int|
            1 <= i < window_after(messages, newest).len() ==> #[trigger] window_after(
                messages,
                newest,
            )[i] == messages[i - 1],
{
}

/// What a classification leads to is decided by its intent alone: a
/// clarification is asked exactly for an ambiguous message, a search is made
/// for a query and a crawl for a crawl request, both on the formatted content,
/// and a note, a draft or an event is logged as its formatted content with
/// every found entity linked, followed by the embeds of the stored attachments.
pub proof fn lemma_plan_follows_intent(
    c: UrielClassification,
    file_paths: Seq<Seq<char>>,
    p: MessagePlan,
)
    requires
        plan_of(p) == plan_view(c, file_paths),
    ensures
        p is AskClarification <==> c.intent == IntentEnum::Disambiguate,
        p is Query <==> c.intent == IntentEnum::Query,
        p is Crawl <==> c.intent == IntentEnum::Crawl,
        p is AppendLog <==> (c.intent == IntentEnum::Note || c.intent == IntentEnum::Draft
            || c.intent == IntentEnum::Event),
        c.intent == IntentEnum::Query ==> (p matches MessagePlan::Query(t) && t@
            == c.formatted_content@),
        c.intent == IntentEnum::Crawl ==> (p matches MessagePlan::Crawl(t) && t@
            == c.formatted_content@),
        (c.intent == IntentEnum::Note || c.intent == IntentEnum::Draft || c.intent
            == IntentEnum::Event) ==> (p matches MessagePlan::AppendLog(t) && t@ == backlinked(
            c.formatted_content@,
            texts(c.entities_found@),
        ) + embeds(file_paths)),
{
}

/// Joining keeps every item, in order: joining two non-empty lists one after
/// the other gives the first joined, the separator, and the second joined.
pub proof fn lemma_joined_concat(a: Seq<Seq<char>>, b: Seq<Seq<char>>, sep: Seq<char>)
    requires
        a.len() > 0,
        b.len() > 0,
    ensures
        joined(a + b, sep) == joined(a, sep) + sep + joined(b, sep),
    decreases b.len(),
{
    if b.len() == 1 {
        assert((a + b).drop_last() =~= a);
        assert((a + b).last() == b[0]);
    } else {
        lemma_joined_concat(a, b.drop_last(), sep);
        assert((a + b).drop_last() =~= a + b.drop_last());
        assert((a + b).last() == b.last());
        assert(joined(a + b, sep) =~= joined(a, sep) + sep + joined(b, sep));
    }
}

/// The rendering of a thread's messages holds every one of them: a message
/// added at the end of a non-empty list is rendered after `, ` just before the
/// closing `]`, with everything before it rendered as it was.
pub proof fn lemma_debug_list_push(items: Seq<Seq<char>>, x: Seq<char>)
    requires
        items.len() > 0,
    ensures
        debug_list(items.push(x)) == debug_list(items).drop_last() + ", "@ + debug_text(x) + "]"@,
        debug_list(seq![x]) == "["@ + debug_text(x) + "]"@,
{
    reveal_strlit("]");
    let f = |s: Seq<char>| debug_text(s);
    let shown = items.map_values(f);
    let longer = items.push(x).map_values(f);
    assert(longer =~= shown + seq![debug_text(x)]);
    lemma_joined_concat(shown, seq![debug_text(x)], ", "@);
    assert(joined(seq![debug_text(x)], ", "@) == debug_text(x));
    let body = joined(shown, ", "@);
    assert(debug_list(items) == "["@ + body + "]"@);
    assert(debug_list(items).drop_last() =~= "["@ + body);
    assert(debug_list(items.push(x)) =~= debug_list(items).drop_last() + ", "@ + debug_text(x)
        + "]"@);
    assert(seq![x].map_values(f) =~= seq![debug_text(x)]);
}

/// Every ingested message ends in a thread, a reply or a log entry: the
/// handling ends within three steps; when the plan made from the
/// classification succeeds nothing follows it, and otherwise the raw entry
/// (the text and its attachments' embeds) is appended, once, as the last step.
pub proof fn lemma_handling_always_lands(
    c: Option<UrielClassification>,
    text: Seq<char>,
    file_paths: Seq<Seq<char>>,
    first_succeeded: bool,
    second_succeeded: bool,
)
    ensures
        ({
            let s1 = first_step_view(c, text, file_paths);
            let s2 = next_step_view(s1, first_succeeded, text, file_paths);
            let s3 = next_step_view(s2, second_succeeded, text, file_paths);
            &&& s3 == finish_view()
            &&& c is Some <==> carries_plan(s1)
            &&& carries_plan(s1) && first_succeeded ==> s2 == finish_view()
            &&& carries_plan(s1) && !first_succeeded ==> s2 == fallback_view(text, file_paths)
            &&& !carries_plan(s1) ==> s1 == fallback_view(text, file_paths) && s2 == finish_view()
        }),
{
}

/// The ingestion node reads the message text and the first stored attachment
/// from the parameters it is given: its request holds the text in its prompt,
/// and the attachment inline when its bytes could be read.
pub proof fn lemma_params_reach_ingestion(
    text: Seq<char>,
    entities: Seq<Seq<char>>,
    file_paths: Seq<Seq<char>>,
    media: Option<Seq<u8>>,
)
    ensures
        crate::orichalcum_integration::ingestion_parts_view(
            ingestion_params_view(text, entities, file_paths),
            media,
        ) == if file_paths.len() > 0 && media is Some {
            seq![
                crate::gemini_api::text_part(
                    crate::orichalcum_integration::ingestion_prompt_text(text),
                ),
                crate::orichalcum_integration::inline_part(
                    crate::orichalcum_integration::mime_for(file_paths[0]),
                    crate::orichalcum_integration::base64_standard(media->0),
                ),
            ]
        } else {
            seq![
                crate::gemini_api::text_part(
                    crate::orichalcum_integration::ingestion_prompt_text(text),
                ),
            ]
        },
{
    reveal_strlit("input_text");
    reveal_strlit("known_entities");
    reveal_strlit("media_path");
    assert("input_text"@[0] != "media_path"@[0]);
    assert("input_text"@ != "media_path"@);
    assert("known_entities"@.len() != "media_path"@.len());
    assert("known_entities"@.len() != "input_text"@.len());
    let base = seq![
        ("input_text"@, JsonV::Str(text)),
        ("known_entities"@, JsonV::Array(entities.map_values(|e: Seq<char>| JsonV::Str(e)))),
    ];
    let params = ingestion_params_view(text, entities, file_paths);
    assert(base.drop_last() =~= seq![("input_text"@, JsonV::Str(text))]);
    assert("known_entities"@ != "input_text"@);
    assert("known_entities"@ != "media_path"@);
    assert(base.last().0 == "known_entities"@);
    assert(crate::json::lookup(base, "input_text"@) == crate::json::lookup(base.drop_last(), "input_text"@));
    assert(crate::json::lookup(base, "input_text"@) == Some(JsonV::Str(text)));
    assert(crate::json::lookup(base, "media_path"@) == crate::json::lookup(base.drop_last(), "media_path"@));
    let single = seq![("input_text"@, JsonV::Str(text))];
    assert(single.drop_last() =~= Seq::<(Seq<char>, JsonV)>::empty());
    assert(crate::json::lookup(single, "media_path"@) == crate::json::lookup(single.drop_last(), "media_path"@));
    assert(crate::json::lookup(base, "media_path"@) is None);
    if file_paths.len() > 0 {
        let full = base.push(("media_path"@, JsonV::Str(file_paths[0])));
        assert(full.drop_last() =~= base);
        assert(params.field("input_text"@) == Some(JsonV::Str(text)));
        assert(params.field("media_path"@) == Some(JsonV::Str(file_paths[0])));
    } else {
        assert(params.field("input_text"@) == Some(JsonV::Str(text)));
        assert(params.field("media_path"@) is None);
    }
}

} // verus!
