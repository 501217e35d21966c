//! Attachments: the size limit on a download, and where in the vault a downloaded
//! file is stored (`attachments/<year>/<month>/<name>`, with `-1`, `-2`, ... put
//! before the extension while a name is taken).
use vstd::prelude::*;
use crate::text::{
    copy_text, chars_of, decimal, last_index_of, lemma_decimal_digits, lemma_decimal_injective, lemma_last_index_of, push_signed_decimal, push_text,
    push_zero_padded, rfind_char, signed_decimal, slice_text, zero_padded,
};

verus! {

/// Maximum allowed download size in bytes (20 MiB).
pub const MAX_DOWNLOAD_SIZE: usize = 20971520;

/// Seconds a download may take before the request is abandoned.
pub const DOWNLOAD_TIMEOUT_SECS: u64 = 30;

/// `name` with every `/` and `\` turned into `_`.
pub open spec fn sanitized(name: Seq<char>) -> Seq<char> {
    name.map_values(|c: char| if c == '/' || c == '\\' { '_' } else { c })
}

/// What comes before the last `.` of a name (the whole name when it has none).
pub open spec fn name_base(name: Seq<char>) -> Seq<char> {
    match last_index_of(name, '.') {
        Some(i) => name.take(i),
        None => name,
    }
}

/// The last `.` of a name and what follows it (empty when it has none).
pub open spec fn name_ext(name: Seq<char>) -> Seq<char> {
    match last_index_of(name, '.') {
        Some(i) => name.skip(i),
        None => Seq::empty(),
    }
}

/// The name tried for the file `file_name` after `counter` names were taken:
/// the sanitized name itself first, then `<base>-<counter><ext>`.
pub open spec fn attempt_name(file_name: Seq<char>, counter: int) -> Seq<char> {
    let safe = sanitized(file_name);
    if counter == 0 {
        safe
    } else {
        name_base(safe) + seq!['-'] + signed_decimal(counter) + name_ext(safe)
    }
}

/// The vault-relative folder for attachments stored in `month` of `year`.
pub open spec fn attachment_dir_text(year: int, month: nat) -> Seq<char> {
    "attachments/"@ + signed_decimal(year) + seq!['/'] + zero_padded(decimal(month), 2)
}

/// The vault-relative path of the file `name` in the folder `dir`.
pub open spec fn joined_path(dir: Seq<char>, name: Seq<char>) -> Seq<char> {
    dir + seq!['/'] + name
}

/// Splitting a name at its last `.` loses nothing: base and extension put
/// back together give the name.
pub proof fn lemma_split_keeps_name(name: Seq<char>)
    ensures
        name_base(name) + name_ext(name) == name,
{
    lemma_last_index_of(name, '.');
    match last_index_of(name, '.') {
        Some(i) => {
            assert(name.take(i) + name.skip(i) =~= name);
        },
        None => {
            assert(name + Seq::<char>::empty() =~= name);
        },
    }
}

/// Sanitizing a name that was already sanitized changes nothing.
pub proof fn lemma_sanitize_idempotent(name: Seq<char>)
    ensures
        sanitized(sanitized(name)) == sanitized(name),
{
    assert(sanitized(sanitized(name)) =~= sanitized(name));
}

/// No name tried for an attachment holds a path separator, so the file stays in
/// its attachments folder.
pub proof fn lemma_attempt_has_no_separator(file_name: Seq<char>, counter: int)
    ensures
        forall|i: int|
            0 <= i < attempt_name(file_name, counter).len() ==> {
                let c = #[trigger] attempt_name(file_name, counter)[i];
                c != '/' && c != '\\'
            },
{
    let safe = sanitized(file_name);
    assert forall|i: int| 0 <= i < safe.len() implies #[trigger] safe[i] != '/' && safe[i]
        != '\\' by {}
    if counter != 0 {
        lemma_split_keeps_name(safe);
        lemma_last_index_of(safe, '.');
        let magnitude: nat = if counter < 0 { (-counter) as nat } else { counter as nat };
        lemma_decimal_digits(magnitude);
        let base = name_base(safe);
        let ext = name_ext(safe);
        let digits = signed_decimal(counter);
        let whole = attempt_name(file_name, counter);
        assert(whole == base + seq!['-'] + digits + ext);
        assert forall|i: int| 0 <= i < base.len() implies #[trigger] base[i] == safe[i] by {
            match last_index_of(safe, '.') {
                Some(k) => {},
                None => {},
            }
        }
        assert forall|i: int| 0 <= i < ext.len() implies #[trigger] ext[i] == safe[base.len() + i] by {
            assert((base + ext)[base.len() + i] == ext[i]);
        }
        assert forall|i: int| 0 <= i < digits.len() implies #[trigger] digits[i] != '/' && digits[i]
            != '\\' by {
            if counter < 0 {
                if i > 0 {
                    assert(digits[i] == decimal(magnitude)[i - 1]);
                }
            }
        }
        assert forall|i: int| 0 <= i < whole.len() implies {
            let c = #[trigger] whole[i];
            c != '/' && c != '\\'
        } by {
            if i < base.len() {
                assert(whole[i] == base[i]);
            } else if i == base.len() {
                assert(whole[i] == '-');
            } else if i < base.len() + 1 + digits.len() {
                assert(whole[i] == digits[i - base.len() - 1]);
            } else {
                assert(whole[i] == ext[i - base.len() - 1 - digits.len()]);
            }
        }
    }
}

/// Each retry proposes a new name: the names tried for different counters
/// (from zero up) all differ.
pub proof fn lemma_attempts_distinct(file_name: Seq<char>, c1: int, c2: int)
    requires
        0 <= c1,
        0 <= c2,
        c1 != c2,
    ensures
        attempt_name(file_name, c1) != attempt_name(file_name, c2),
{
    let safe = sanitized(file_name);
    lemma_split_keeps_name(safe);
    let base = name_base(safe);
    let ext = name_ext(safe);
    if c1 == 0 || c2 == 0 {
        let c = if c1 == 0 { c2 } else { c1 };
        lemma_decimal_digits(c as nat);
        assert(attempt_name(file_name, c).len() > safe.len());
    } else {
        lemma_decimal_digits(c1 as nat);
        lemma_decimal_digits(c2 as nat);
        let d1 = decimal(c1 as nat);
        let d2 = decimal(c2 as nat);
        let a1 = attempt_name(file_name, c1);
        let a2 = attempt_name(file_name, c2);
        assert(a1 == base + seq!['-'] + d1 + ext);
        assert(a2 == base + seq!['-'] + d2 + ext);
        if a1 == a2 {
            assert(d1.len() == d2.len());
            assert(d1 =~= a1.subrange(base.len() + 1int, base.len() + 1int + d1.len()));
            assert(d2 =~= a2.subrange(base.len() + 1int, base.len() + 1int + d2.len()));
            lemma_decimal_injective(c1 as nat, c2 as nat);
        }
    }
}

/// What creating the attachment's file under a proposed name gave.
#[derive(PartialEq, Eq, Structural, Clone, Copy, Debug)]
pub enum CreateOutcome {
    /// The file was created.
    Created,
    /// A file of that name is already there.
    NameTaken,
    /// Creating the file failed for another reason.
    Failed,
}

/// What to do after trying to create the attachment's file under a name.
#[derive(Debug, PartialEq, Eq)]
pub enum NameStep {
    /// The file was created under this name: store the bytes there.
    Store(String),
    /// The name was taken: try this counter and its name next.
    Retry(i32, String),
    /// Give up: the file could not be created.
    GiveUp,
}

/// The view of a [`NameStep`]: its kind (store, retry, give up), the counter
/// and the name.
pub open spec fn name_step_of(s: NameStep) -> (int, int, Seq<char>) {
    match s {
        NameStep::Store(name) => (0, 0, name@),
        NameStep::Retry(counter, name) => (1, counter as int, name@),
        NameStep::GiveUp => (2, 0, Seq::empty()),
    }
}

/// The step after the name for `counter` met `outcome`: store under that name
/// once created, try the name for the next counter while taken, else give up.
pub open spec fn next_name_step(file_name: Seq<char>, counter: int, outcome: CreateOutcome) -> (
    int,
    int,
    Seq<char>,
) {
    match outcome {
        CreateOutcome::Created => (0, 0, attempt_name(file_name, counter)),
        CreateOutcome::NameTaken => (1, counter + 1, attempt_name(file_name, counter + 1)),
        CreateOutcome::Failed => (2, 0, Seq::empty()),
    }
}

/// The name the file ends up stored under when the names are tried from
/// `counter` on and the name for counter `i` meets `outcomes[i]`: `None` when
/// creating fails, or the outcomes run out first.
pub open spec fn placement_from(file_name: Seq<char>, outcomes: Seq<CreateOutcome>, counter: int) -> Option<Seq<char>>
    decreases outcomes.len() - counter,
{
    if counter < 0 || counter >= outcomes.len() {
        None
    } else {
        let step = next_name_step(file_name, counter, outcomes[counter]);
        if step.0 == 0 {
            Some(step.2)
        } else if step.0 == 1 {
            placement_from(file_name, outcomes, step.1)
        } else {
            None
        }
    }
}

/// An attachment is stored under the first of its names that is free: when
/// the names for counters `0..k` are taken and the one for `k` is created,
/// trying the names in turn stores the file under the name for `k`, a name
/// unlike all those found taken.
pub proof fn lemma_first_free_name(file_name: Seq<char>, outcomes: Seq<CreateOutcome>, k: int)
    requires
        0 <= k < outcomes.len(),
        outcomes[k] == CreateOutcome::Created,
        forall|i: int| 0 <= i < k ==> outcomes[i] == CreateOutcome::NameTaken,
    ensures
        placement_from(file_name, outcomes, 0) == Some(attempt_name(file_name, k)),
        forall|i: int|
            0 <= i < k ==> #[trigger] attempt_name(file_name, i) != attempt_name(file_name, k),
{
    lemma_placement_from(file_name, outcomes, k, k);
    assert forall|i: int| 0 <= i < k implies #[trigger] attempt_name(file_name, i) != attempt_name(
        file_name,
        k,
    ) by {
        lemma_attempts_distinct(file_name, i, k);
    }
}

proof fn lemma_placement_from(file_name: Seq<char>, outcomes: Seq<CreateOutcome>, k: int, c: int)
    requires
        0 <= c <= k < outcomes.len(),
        outcomes[k] == CreateOutcome::Created,
        forall|i: int| 0 <= i < k ==> outcomes[i] == CreateOutcome::NameTaken,
    ensures
        placement_from(file_name, outcomes, k - c) == Some(attempt_name(file_name, k)),
    decreases c,
{
    if c > 0 {
        lemma_placement_from(file_name, outcomes, k, c - 1);
        assert(outcomes[k - c] == CreateOutcome::NameTaken);
    }
}

/// Replaces the path separators `/` and `\` in a file name with `_`.
pub fn sanitize_filename(name: &str) -> (r: String)
    ensures
        r@ == sanitized(name@),
{
    let v = chars_of(name);
    let mut out = String::new();
    let mut i: usize = 0;
    while i < v.len()
        invariant
            v@ == name@,
            i <= v.len(),
            out@ == sanitized(name@).take(i as int),
        decreases v.len() - i,
    {
        let c = v[i];
        if c == '/' || c == '\\' {
            out.push('_');
        } else {
            out.push(c);
        }
        i = i + 1;
        assert(out@ =~= sanitized(name@).take(i as int));
    }
    assert(sanitized(name@).take(v.len() as int) =~= sanitized(name@));
    out
}

/// The folder `attachments/<year>/<month>` for a download, the month written
/// with two digits.
pub fn attachment_dir(year: i32, month: u32) -> (r: String)
    ensures
        r@ == attachment_dir_text(year as int, month as nat),
{
    let mut s = String::new();
    push_text(&mut s, "attachments/");
    push_signed_decimal(&mut s, year as i64);
    s.push('/');
    push_zero_padded(&mut s, month as u64, 2);
    s
}

/// The vault-relative path of `name` inside the folder `dir`.
pub fn vault_relative_path(dir: &str, name: &str) -> (r: String)
    ensures
        r@ == joined_path(dir@, name@),
{
    let mut s = copy_text(dir);
    s.push('/');
    push_text(&mut s, name);
    s
}

/// The names to try, in turn, for storing an attachment.
pub struct AttachmentName {
    safe: String,
    base: String,
    ext: String,
    file_name: Ghost<Seq<char>>,
}

impl AttachmentName {
    #[verifier::type_invariant]
    spec fn well_formed(self) -> bool {
        &&& self.safe@ == sanitized(self.file_name@)
        &&& self.base@ == name_base(self.safe@)
        &&& self.ext@ == name_ext(self.safe@)
    }

    /// The file name that the names are made for.
    pub closed spec fn source(self) -> Seq<char> {
        self.file_name@
    }

    /// Splits the sanitized `file_name` at its last `.`.
    pub fn new(file_name: &str) -> (r: AttachmentName)
        ensures
            r.source() == file_name@,
    {
        let safe = sanitize_filename(file_name);
        let v = chars_of(safe.as_str());
        proof {
            lemma_last_index_of(v@, '.');
        }
        let (base, ext) = match rfind_char(&v, '.') {
            Some(idx) => (slice_text(&v, 0, idx), slice_text(&v, idx, v.len())),
            None => (copy_text(safe.as_str()), String::new()),
        };
        proof {
            assert(v@.subrange(0, v@.len() as int) =~= v@);
        }
        AttachmentName { safe, base, ext, file_name: Ghost(file_name@) }
    }

    /// The name to try after `counter` names were found taken.
    pub fn attempt(&self, counter: i32) -> (r: String)
        ensures
            r@ == attempt_name(self.source(), counter as int),
    {
        proof {
            use_type_invariant(self);
        }
        if counter == 0 {
            copy_text(self.safe.as_str())
        } else {
            let mut s = copy_text(self.base.as_str());
            s.push('-');
            push_signed_decimal(&mut s, counter as i64);
            push_text(&mut s, self.ext.as_str());
            assert(s@ =~= attempt_name(self.source(), counter as int));
            s
        }
    }

    /// What to do once the name for `counter` met `outcome`: store the file
    /// under it, try the name for `counter + 1`, or give up.
    pub fn after_attempt(&self, counter: i32, outcome: CreateOutcome) -> (r: NameStep)
        requires
            outcome == CreateOutcome::NameTaken ==> counter < i32::MAX,
        ensures
            name_step_of(r) == next_name_step(self.source(), counter as int, outcome),
    {
        match outcome {
            CreateOutcome::Created => NameStep::Store(self.attempt(counter)),
            CreateOutcome::NameTaken => {
                let next = counter + 1;
                NameStep::Retry(next, self.attempt(next))
            },
            CreateOutcome::Failed => NameStep::GiveUp,
        }
    }
}

/// Why a download was refused.
#[derive(Debug, PartialEq, Eq)]
pub enum DownloadError {
    /// The data received would exceed [`MAX_DOWNLOAD_SIZE`].
    TooLarge,
}

/// The message that reports a download over the size limit.
pub fn too_large_message() -> (r: &'static str)
    ensures
        r@ == "downloaded file exceeds maximum allowed size"@,
{
    "downloaded file exceeds maximum allowed size"
}

/// The bytes of a download received so far; never more than [`MAX_DOWNLOAD_SIZE`].
pub struct DownloadBuffer {
    data: Vec<u8>,
}

impl View for DownloadBuffer {
    type V = Seq<u8>;

    closed spec fn view(&self) -> Seq<u8> {
        self.data@
    }
}

impl DownloadBuffer {
    #[verifier::type_invariant]
    spec fn within_limit(self) -> bool {
        self.data@.len() <= MAX_DOWNLOAD_SIZE
    }

    /// An empty buffer.
    pub fn new() -> (r: DownloadBuffer)
        ensures
            r@ == Seq::<u8>::empty(),
    {
        DownloadBuffer { data: Vec::new() }
    }

    /// Adds `chunk` when the total stays within [`MAX_DOWNLOAD_SIZE`]; refuses it,
    /// and keeps the buffer as it was, when the total would exceed the limit.
    pub fn push_chunk(&mut self, chunk: &[u8]) -> (r: Result<(), DownloadError>)
        ensures
            old(self)@.len() + chunk@.len() <= MAX_DOWNLOAD_SIZE ==> r is Ok && final(self)@
                == old(self)@ + chunk@,
            old(self)@.len() + chunk@.len() > MAX_DOWNLOAD_SIZE ==> r is Err && final(self)@
                == old(self)@,
            final(self)@.len() <= MAX_DOWNLOAD_SIZE,
    {
        proof {
            use_type_invariant(&*self);
        }
        if chunk.len() > MAX_DOWNLOAD_SIZE - self.data.len() {
            return Err(DownloadError::TooLarge);
        }
        let mut taken = DownloadBuffer::new();
        std::mem::swap(self, &mut taken);
        let DownloadBuffer { mut data } = taken;
        data.extend_from_slice(chunk);
        *self = DownloadBuffer { data };
        Ok(())
    }

    /// The bytes received.
    pub fn into_bytes(self) -> (r: Vec<u8>)
        ensures
            r@ == self@,
            r@.len() <= MAX_DOWNLOAD_SIZE,
    {
        proof {
            use_type_invariant(&self);
        }
        self.data
    }
}

} // verus!
