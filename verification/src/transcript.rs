//! Agent session bookkeeping: the task state saved at pull time, and the
//! token usage summed over the assistant messages of session transcripts.

use vstd::prelude::*;

use crate::types::{AgentSessionDto, SessionMetadata};
use crate::text::{lemma_seq_lt_asymmetric, lemma_seq_lt_irreflexive, push_char, split_lines, trim, trimmed, lines, lemma_seq_lt_total, lemma_seq_lt_transitive, seq_lt, str_eq, str_less, string_views};

verus! {

/// When work on a task started, and where that session's transcripts live.
#[derive(Debug, Clone)]
pub struct TaskState {
    pub started_at_ms: i64,
    pub transcript_dir: String,
}

/// Token counts of one message.
#[derive(Debug, Clone)]
pub struct TokenBlock {
    pub input: u64,
    pub output: u64,
    pub cache: Option<CacheBlock>,
}

/// Cache token counts of one message.
#[derive(Debug, Clone)]
pub struct CacheBlock {
    pub read: u64,
    pub write: u64,
}

/// Creation time of one message, in milliseconds.
#[derive(Debug, Clone)]
pub struct TimeBlock {
    pub created: i64,
}

/// One transcript line, with the fields that usage accounting reads.
#[derive(Debug, Clone)]
pub struct TranscriptMessage {
    pub role: Option<String>,
    pub model_id: Option<String>,
    pub tokens: Option<TokenBlock>,
    pub time: Option<TimeBlock>,
}

/// Usage summed over the assistant messages of a session.
#[derive(Debug, Clone)]
pub struct TranscriptAggregate {
    pub input_tokens: u64,
    pub output_tokens: u64,
    pub cache_read_tokens: u64,
    pub cache_write_tokens: u64,
    pub message_count: u32,
    pub model_ids: Vec<String>,
}

/// The sum of the four token counts of an aggregate.
pub open spec fn spec_total_tokens(a: TranscriptAggregate) -> int {
    a.input_tokens + a.output_tokens + a.cache_read_tokens + a.cache_write_tokens
}

impl TranscriptAggregate {
    /// All tokens used: input, output, cache reads and cache writes.
    pub fn total_tokens(&self) -> (r: u64)
        requires
            spec_total_tokens(*self) <= u64::MAX,
        ensures
            r == spec_total_tokens(*self),
    {
        self.input_tokens + self.output_tokens + self.cache_read_tokens + self.cache_write_tokens
    }
}

/// Creation time of a message; 0 when it has none.
pub open spec fn created_at(m: TranscriptMessage) -> i64 {
    match m.time {
        Some(t) => t.created,
        None => 0,
    }
}

/// Whether a message counts toward usage: written by the assistant, and created
/// within `[start, end]`.
pub open spec fn is_counted(m: TranscriptMessage, start: i64, end: i64) -> bool {
    &&& m.role matches Some(r) && r@ == "assistant"@
    &&& start <= created_at(m) <= end
}

pub open spec fn input_of(m: TranscriptMessage) -> nat {
    match m.tokens {
        Some(t) => t.input as nat,
        None => 0,
    }
}

pub open spec fn output_of(m: TranscriptMessage) -> nat {
    match m.tokens {
        Some(t) => t.output as nat,
        None => 0,
    }
}

pub open spec fn cache_read_of(m: TranscriptMessage) -> nat {
    match m.tokens {
        Some(t) => match t.cache {
            Some(c) => c.read as nat,
            None => 0,
        },
        None => 0,
    }
}

pub open spec fn cache_write_of(m: TranscriptMessage) -> nat {
    match m.tokens {
        Some(t) => match t.cache {
            Some(c) => c.write as nat,
            None => 0,
        },
        None => 0,
    }
}

/// A quantity summed over counted messages.
pub enum UsageField {
    Input,
    Output,
    CacheRead,
    CacheWrite,
    Messages,
}

/// What message `m` adds to field `f`.
pub open spec fn field_of(m: TranscriptMessage, f: UsageField) -> nat {
    match f {
        UsageField::Input => input_of(m),
        UsageField::Output => output_of(m),
        UsageField::CacheRead => cache_read_of(m),
        UsageField::CacheWrite => cache_write_of(m),
        UsageField::Messages => 1,
    }
}

/// The sum of field `f` over the counted messages of `ms`.
pub open spec fn counted_sum(ms: Seq<TranscriptMessage>, start: i64, end: i64, f: UsageField) -> nat
    decreases ms.len(),
{
    if ms.len() == 0 {
        0
    } else {
        counted_sum(ms.drop_last(), start, end, f) + if is_counted(ms.last(), start, end) {
            field_of(ms.last(), f)
        } else {
            0
        }
    }
}

/// The number of counted messages in `ms`.
pub open spec fn counted_messages(ms: Seq<TranscriptMessage>, start: i64, end: i64) -> nat {
    counted_sum(ms, start, end, UsageField::Messages)
}

/// The model id that a message contributes: its non-empty model id when it is
/// counted.
pub open spec fn counted_model(m: TranscriptMessage, start: i64, end: i64) -> Option<Seq<char>> {
    if is_counted(m, start, end) {
        match m.model_id {
            Some(id) => if id@.len() > 0 { Some(id@) } else { None },
            None => None,
        }
    } else {
        None
    }
}

/// The non-empty model ids of the counted messages of `ms`.
pub open spec fn model_set(ms: Seq<TranscriptMessage>, start: i64, end: i64) -> Set<Seq<char>>
    decreases ms.len(),
{
    if ms.len() == 0 {
        Set::empty()
    } else {
        let rest = model_set(ms.drop_last(), start, end);
        match counted_model(ms.last(), start, end) {
            Some(id) => rest.insert(id),
            None => rest,
        }
    }
}

/// Each element sorts strictly before the next: sorted, with no repeats.
pub open spec fn strictly_sorted(s: Seq<Seq<char>>) -> bool {
    forall|i: int, j: int| 0 <= i < j < s.len() ==> seq_lt(s[i], s[j])
}

/// Whether `agg` is exactly what the counted messages of `ms` sum to.
pub open spec fn aggregates(agg: TranscriptAggregate, ms: Seq<TranscriptMessage>, start: i64, end: i64) -> bool {
    &&& agg.input_tokens == counted_sum(ms, start, end, UsageField::Input)
    &&& agg.output_tokens == counted_sum(ms, start, end, UsageField::Output)
    &&& agg.cache_read_tokens == counted_sum(ms, start, end, UsageField::CacheRead)
    &&& agg.cache_write_tokens == counted_sum(ms, start, end, UsageField::CacheWrite)
    &&& agg.message_count == counted_messages(ms, start, end)
    &&& strictly_sorted(string_views(agg.model_ids@))
    &&& forall|x: Seq<char>| #[trigger] model_set(ms, start, end).contains(x) <==> string_views(agg.model_ids@).contains(x)
}

/// Whether none of the sums over the counted messages of `ms` overflows.
pub open spec fn sums_fit(ms: Seq<TranscriptMessage>, start: i64, end: i64) -> bool {
    &&& counted_sum(ms, start, end, UsageField::Input) <= u64::MAX
    &&& counted_sum(ms, start, end, UsageField::Output) <= u64::MAX
    &&& counted_sum(ms, start, end, UsageField::CacheRead) <= u64::MAX
    &&& counted_sum(ms, start, end, UsageField::CacheWrite) <= u64::MAX
    &&& counted_messages(ms, start, end) <= u32::MAX
}

proof fn lemma_counted_sum_prefix(
    ms: Seq<TranscriptMessage>,
    start: i64,
    end: i64,
    f: UsageField,
    k: int,
)
    requires
        0 <= k <= ms.len(),
    ensures
        counted_sum(ms.take(k), start, end, f) <= counted_sum(ms, start, end, f),
    decreases ms.len() - k,
{
    if k < ms.len() {
        assert(ms.take(k + 1).drop_last() =~= ms.take(k));
        lemma_counted_sum_prefix(ms, start, end, f, k + 1);
    } else {
        assert(ms.take(k) =~= ms);
    }
}

/// Inserts `m` into a strictly sorted list unless it is there already.
fn insert_sorted(v: &mut Vec<String>, m: String)
    requires
        strictly_sorted(string_views(old(v)@)),
    ensures
        strictly_sorted(string_views(final(v)@)),
        forall|x: Seq<char>| #[trigger] string_views(final(v)@).contains(x) <==> (string_views(old(v)@).contains(x) || x == m@),
{
    let n = v.len();
    let mut i: usize = 0;
    while i < n && str_less(v[i].as_str(), m.as_str())
        invariant
            n == v@.len(),
            i <= n,
            forall|j: int| 0 <= j < i ==> seq_lt(#[trigger] v@[j]@, m@),
        decreases n - i,
    {
        i = i + 1;
    }
    let ghost old_views = string_views(v@);
    if i < n && str_eq(v[i].as_str(), m.as_str()) {
        proof {
            assert(old_views[i as int] == m@);
        }
        return;
    }
    proof {
        if i < n {
            lemma_seq_lt_total(v@[i as int]@, m@);
            assert(seq_lt(m@, v@[i as int]@));
            assert forall|j: int| i <= j < n implies seq_lt(m@, #[trigger] v@[j]@) by {
                if j > i {
                    assert(seq_lt(old_views[i as int], old_views[j]));
                    lemma_seq_lt_transitive(m@, v@[i as int]@, v@[j]@);
                }
            }
        }
    }
    let ghost mv = m@;
    v.insert(i, m);
    proof {
        let nv = string_views(v@);
        assert(nv =~= old_views.insert(i as int, mv));
        assert forall|a: int, b: int| 0 <= a < b < nv.len() implies seq_lt(nv[a], nv[b]) by {
            if b < i {
                assert(nv[a] == old_views[a] && nv[b] == old_views[b]);
            } else if b == i {
                assert(nv[a] == old_views[a]);
            } else if a < i {
                assert(nv[a] == old_views[a] && nv[b] == old_views[b - 1]);
                lemma_seq_lt_transitive(old_views[a], mv, old_views[b - 1]);
            } else if a == i {
                assert(nv[b] == old_views[b - 1]);
            } else {
                assert(nv[a] == old_views[a - 1] && nv[b] == old_views[b - 1]);
            }
        }
        assert forall|x: Seq<char>| #[trigger] nv.contains(x) <==> (old_views.contains(x) || x == mv) by {
            if nv.contains(x) {
                let k = choose|k: int| 0 <= k < nv.len() && nv[k] == x;
                if k < i {
                    assert(old_views[k] == x);
                } else if k > i {
                    assert(old_views[k - 1] == x);
                }
            }
            if old_views.contains(x) {
                let k = choose|k: int| 0 <= k < old_views.len() && old_views[k] == x;
                if k < i {
                    assert(nv[k] == x);
                } else {
                    assert(nv[k + 1] == x);
                }
            }
            if x == mv {
                assert(nv[i as int] == x);
            }
        }
    }
}


fn role_is_assistant(m: &TranscriptMessage) -> (r: bool)
    ensures
        r == (m.role matches Some(x) && x@ == "assistant"@),
{
    match &m.role {
        Some(x) => str_eq(x.as_str(), "assistant"),
        None => false,
    }
}

fn created_of(m: &TranscriptMessage) -> (r: i64)
    ensures
        r == created_at(*m),
{
    match &m.time {
        Some(t) => t.created,
        None => 0,
    }
}

/// Whether summing the usage of `messages` within `[started_at_ms,
/// ended_at_ms]` stays within the counters' ranges.
pub fn usage_fits(messages: &Vec<TranscriptMessage>, started_at_ms: i64, ended_at_ms: i64) -> (r: bool)
    ensures
        r == sums_fit(messages@, started_at_ms, ended_at_ms),
{
    let ghost ms = messages@;
    let mut input: u64 = 0;
    let mut output: u64 = 0;
    let mut cache_read: u64 = 0;
    let mut cache_write: u64 = 0;
    let mut count: u32 = 0;
    let n = messages.len();
    let mut k: usize = 0;
    proof {
        assert(ms.take(0) =~= Seq::<TranscriptMessage>::empty());
    }
    while k < n
        invariant
            ms == messages@,
            n == ms.len(),
            k <= n,
            input == counted_sum(ms.take(k as int), started_at_ms, ended_at_ms, UsageField::Input),
            output == counted_sum(ms.take(k as int), started_at_ms, ended_at_ms, UsageField::Output),
            cache_read == counted_sum(ms.take(k as int), started_at_ms, ended_at_ms, UsageField::CacheRead),
            cache_write == counted_sum(ms.take(k as int), started_at_ms, ended_at_ms, UsageField::CacheWrite),
            count == counted_sum(ms.take(k as int), started_at_ms, ended_at_ms, UsageField::Messages),
        decreases n - k,
    {
        let m = &messages[k];
        let ghost pre = ms.take(k as int);
        let ghost post = ms.take(k + 1);
        proof {
            assert(post.drop_last() =~= pre);
            assert(post.last() == ms[k as int]);
            lemma_counted_sum_prefix(ms, started_at_ms, ended_at_ms, UsageField::Input, k + 1);
            lemma_counted_sum_prefix(ms, started_at_ms, ended_at_ms, UsageField::Output, k + 1);
            lemma_counted_sum_prefix(ms, started_at_ms, ended_at_ms, UsageField::CacheRead, k + 1);
            lemma_counted_sum_prefix(ms, started_at_ms, ended_at_ms, UsageField::CacheWrite, k + 1);
            lemma_counted_sum_prefix(ms, started_at_ms, ended_at_ms, UsageField::Messages, k + 1);
            assert(post.len() == k + 1);
        }
        let created = created_of(m);
        if role_is_assistant(m) && started_at_ms <= created && created <= ended_at_ms {
            let (i, o, r, w) = match &m.tokens {
                Some(t) => match &t.cache {
                    Some(c) => (t.input, t.output, c.read, c.write),
                    None => (t.input, t.output, 0, 0),
                },
                None => (0, 0, 0, 0),
            };
            if i > u64::MAX - input || o > u64::MAX - output || r > u64::MAX - cache_read || w > u64::MAX
                - cache_write || count == u32::MAX {
                return false;
            }
            input = input + i;
            output = output + o;
            cache_read = cache_read + r;
            cache_write = cache_write + w;
            count = count + 1;
        }
        k = k + 1;
    }
    proof {
        assert(ms.take(n as int) =~= ms);
    }
    true
}

/// Sums the usage of the assistant messages created within
/// `[started_at_ms, ended_at_ms]`, and lists their non-empty model ids in
/// sorted order without repeats.
pub fn aggregate_messages(messages: &Vec<TranscriptMessage>, started_at_ms: i64, ended_at_ms: i64) -> (r:
    TranscriptAggregate)
    requires
        sums_fit(messages@, started_at_ms, ended_at_ms),
    ensures
        aggregates(r, messages@, started_at_ms, ended_at_ms),
{
    let ghost ms = messages@;
    let ghost start = started_at_ms;
    let ghost end = ended_at_ms;
    let mut input: u64 = 0;
    let mut output: u64 = 0;
    let mut cache_read: u64 = 0;
    let mut cache_write: u64 = 0;
    let mut count: u32 = 0;
    let mut models: Vec<String> = Vec::new();
    let n = messages.len();
    let mut k: usize = 0;
    proof {
        assert(ms.take(0) =~= Seq::<TranscriptMessage>::empty());
    }
    while k < n
        invariant
            ms == messages@,
            start == started_at_ms,
            end == ended_at_ms,
            n == ms.len(),
            k <= n,
            sums_fit(ms, start, end),
            input == counted_sum(ms.take(k as int), start, end, UsageField::Input),
            output == counted_sum(ms.take(k as int), start, end, UsageField::Output),
            cache_read == counted_sum(ms.take(k as int), start, end, UsageField::CacheRead),
            cache_write == counted_sum(ms.take(k as int), start, end, UsageField::CacheWrite),
            count == counted_sum(ms.take(k as int), start, end, UsageField::Messages),
            strictly_sorted(string_views(models@)),
            forall|x: Seq<char>| #[trigger] model_set(ms.take(k as int), start, end).contains(x)
                <==> string_views(models@).contains(x),
        decreases n - k,
    {
        let m = &messages[k];
        let ghost pre = ms.take(k as int);
        let ghost post = ms.take(k + 1);
        proof {
            assert(post.drop_last() =~= pre);
            assert(post.last() == ms[k as int]);
            lemma_counted_sum_prefix(ms, start, end, UsageField::Input, k + 1);
            lemma_counted_sum_prefix(ms, start, end, UsageField::Output, k + 1);
            lemma_counted_sum_prefix(ms, start, end, UsageField::CacheRead, k + 1);
            lemma_counted_sum_prefix(ms, start, end, UsageField::CacheWrite, k + 1);
            lemma_counted_sum_prefix(ms, start, end, UsageField::Messages, k + 1);
            let c = is_counted(ms[k as int], start, end);
            assert(post.len() == k + 1);
            assert(counted_sum(post, start, end, UsageField::Input) == counted_sum(pre, start, end, UsageField::Input) + if c { input_of(ms[k as int]) } else { 0 });
            assert(counted_sum(post, start, end, UsageField::Output) == counted_sum(pre, start, end, UsageField::Output) + if c { output_of(ms[k as int]) } else { 0 });
            assert(counted_sum(post, start, end, UsageField::CacheRead) == counted_sum(pre, start, end, UsageField::CacheRead) + if c { cache_read_of(ms[k as int]) } else { 0 });
            assert(counted_sum(post, start, end, UsageField::CacheWrite) == counted_sum(pre, start, end, UsageField::CacheWrite) + if c { cache_write_of(ms[k as int]) } else { 0 });
            assert(counted_sum(post, start, end, UsageField::Messages) == counted_sum(pre, start, end, UsageField::Messages) + if c { 1nat } else { 0 });
        }
        let created = created_of(m);
        if role_is_assistant(m) && started_at_ms <= created && created <= ended_at_ms {
            match &m.tokens {
                Some(t) => {
                    input = input + t.input;
                    output = output + t.output;
                    match &t.cache {
                        Some(c) => {
                            cache_read = cache_read + c.read;
                            cache_write = cache_write + c.write;
                        },
                        None => {},
                    }
                },
                None => {},
            }
            match &m.model_id {
                Some(id) => {
                    if !id.as_str().is_empty() {
                        insert_sorted(&mut models, id.clone());
                    }
                },
                None => {},
            }
            count = count + 1;
        }
        proof {
            assert forall|x: Seq<char>| #[trigger] model_set(post, start, end).contains(x)
                <==> string_views(models@).contains(x) by {
                assert(model_set(pre, start, end).contains(x) <==> model_set(ms.take(k as int), start, end).contains(x));
            }
        }
        k = k + 1;
    }
    proof {
        assert(ms.take(n as int) =~= ms);
    }
    TranscriptAggregate {
        input_tokens: input,
        output_tokens: output,
        cache_read_tokens: cache_read,
        cache_write_tokens: cache_write,
        message_count: count,
        model_ids: models,
    }
}


/// `s` with every `/` and `\` replaced by `-`.
pub open spec fn spec_encode_cwd(s: Seq<char>) -> Seq<char> {
    Seq::new(s.len(), |i: int| if s[i] == '/' || s[i] == '\\' { '-' } else { s[i] })
}

/// The directory name under which transcripts of sessions run in `cwd` are
/// kept: "/Users/u/work/foo" becomes "-Users-u-work-foo".
pub fn encode_cwd(cwd: &str) -> (r: String)
    ensures
        r@ == spec_encode_cwd(cwd@),
{
    let n = cwd.unicode_len();
    let mut out = String::new();
    let mut i: usize = 0;
    while i < n
        invariant
            n == cwd@.len(),
            i <= n,
            out@ =~= spec_encode_cwd(cwd@).take(i as int),
        decreases n - i,
    {
        let c = cwd.get_char(i);
        if c == '/' || c == '\\' {
            push_char(&mut out, '-');
        } else {
            push_char(&mut out, c);
        }
        i = i + 1;
    }
    proof {
        assert(spec_encode_cwd(cwd@).take(n as int) =~= spec_encode_cwd(cwd@));
    }
    out
}

/// The trimmed lines of `ls` that are not empty after trimming, in order.
pub open spec fn content_lines(ls: Seq<Seq<char>>) -> Seq<Seq<char>>
    decreases ls.len(),
{
    if ls.len() == 0 {
        Seq::empty()
    } else {
        let rest = content_lines(ls.drop_last());
        if trimmed(ls.last()).len() > 0 {
            rest.push(trimmed(ls.last()))
        } else {
            rest
        }
    }
}

/// The lines of a transcript file that hold a record: each line trimmed,
/// empty ones left out.
pub fn transcript_lines(raw: &str) -> (r: Vec<String>)
    ensures
        string_views(r@) == content_lines(lines(raw@)),
{
    let all = split_lines(raw);
    let ghost ls = lines(raw@);
    let mut out: Vec<String> = Vec::new();
    let mut k: usize = 0;
    proof {
        assert(ls.take(0) =~= Seq::<Seq<char>>::empty());
    }
    while k < all.len()
        invariant
            string_views(all@) == ls,
            k <= all.len(),
            string_views(out@) == content_lines(ls.take(k as int)),
        decreases all.len() - k,
    {
        let t = trim(all[k].as_str());
        let ghost before = string_views(out@);
        proof {
            assert(ls.take(k + 1).drop_last() =~= ls.take(k as int));
            assert(ls.take(k + 1).last() == all@[k as int]@);
        }
        if !t.is_empty() {
            out.push(String::from_str(t));
            proof {
                assert(string_views(out@) =~= before.push(t@));
            }
        }
        k = k + 1;
    }
    proof {
        assert(ls.take(all.len() as int) =~= ls);
    }
    out
}

/// Whole seconds from `started_at_ms` to `ended_at_ms`, or 0 when the end
/// comes first.
pub open spec fn session_seconds(started_at_ms: i64, ended_at_ms: i64) -> int {
    let d = ended_at_ms - started_at_ms;
    if d < 0 { 0 } else { d / 1000 }
}

/// Whether the duration from `start` to `end` fits in an `i64`.
pub open spec fn duration_fits(start: i64, end: i64) -> bool {
    i64::MIN <= end - start <= i64::MAX
}

/// The agent session reported when a task is completed: absent when the task
/// has no saved state or its transcripts could not be summed; otherwise the
/// given agent code, the repository, the duration and the usage of the
/// session.
pub fn build_agent_session(
    state: Option<TaskState>,
    agg: Option<TranscriptAggregate>,
    ended_at_ms: i64,
    local_repo: Option<String>,
    agent_code: String,
) -> (r: Option<AgentSessionDto>)
    requires
        state is Some && agg is Some ==> {
            &&& duration_fits(state->0.started_at_ms, ended_at_ms)
            &&& spec_total_tokens(agg->0) <= u64::MAX
        },
    ensures
        r is None <==> (state is None || agg is None),
        r matches Some(d) ==> {
            let s = state->0;
            let a = agg->0;
            &&& d.agent_code == agent_code
            &&& d.local_repo == local_repo
            &&& d.duration_seconds == session_seconds(s.started_at_ms, ended_at_ms)
            &&& d.tokens_used == spec_total_tokens(a)
            &&& d.metadata.input_tokens == a.input_tokens
            &&& d.metadata.output_tokens == a.output_tokens
            &&& d.metadata.cache_read_tokens == a.cache_read_tokens
            &&& d.metadata.cache_write_tokens == a.cache_write_tokens
            &&& d.metadata.message_count == a.message_count
            &&& d.metadata.model_ids@ == a.model_ids@
            &&& d.metadata.started_at_ms == s.started_at_ms
            &&& d.metadata.ended_at_ms == ended_at_ms
        },
{
    let s = match state {
        Some(s) => s,
        None => return None,
    };
    let a = match agg {
        Some(a) => a,
        None => return None,
    };
    let d = ended_at_ms - s.started_at_ms;
    let duration_seconds: u64 = if d < 0 { 0 } else { (d as u64) / 1000 };
    let tokens_used = a.total_tokens();
    Some(AgentSessionDto {
        agent_code,
        local_repo,
        duration_seconds,
        tokens_used,
        metadata: SessionMetadata {
            input_tokens: a.input_tokens,
            output_tokens: a.output_tokens,
            cache_read_tokens: a.cache_read_tokens,
            cache_write_tokens: a.cache_write_tokens,
            message_count: a.message_count,
            model_ids: a.model_ids,
            started_at_ms: s.started_at_ms,
            ended_at_ms,
        },
    })
}


proof fn lemma_counted_sum_concat(a: Seq<TranscriptMessage>, b: Seq<TranscriptMessage>, start: i64, end: i64, f: UsageField)
    ensures
        counted_sum(a + b, start, end, f) == counted_sum(a, start, end, f) + counted_sum(b, start, end, f),
    decreases b.len(),
{
    if b.len() == 0 {
        assert(a + b =~= a);
    } else {
        assert((a + b).drop_last() =~= a + b.drop_last());
        assert((a + b).last() == b.last());
        lemma_counted_sum_concat(a, b.drop_last(), start, end, f);
    }
}

proof fn lemma_model_set_concat(a: Seq<TranscriptMessage>, b: Seq<TranscriptMessage>, start: i64, end: i64)
    ensures
        model_set(a + b, start, end) == model_set(a, start, end).union(model_set(b, start, end)),
    decreases b.len(),
{
    if b.len() == 0 {
        assert(a + b =~= a);
        assert(model_set(a, start, end).union(Set::empty()) =~= model_set(a, start, end));
    } else {
        assert((a + b).drop_last() =~= a + b.drop_last());
        assert((a + b).last() == b.last());
        lemma_model_set_concat(a, b.drop_last(), start, end);
        assert(model_set(a + b, start, end) =~= model_set(a, start, end).union(model_set(b, start, end)));
    }
}

proof fn lemma_sorted_unique(s: Seq<Seq<char>>, t: Seq<Seq<char>>)
    requires
        strictly_sorted(s),
        strictly_sorted(t),
        forall|x: Seq<char>| s.contains(x) <==> t.contains(x),
    ensures
        s == t,
    decreases s.len(),
{
    if s.len() == 0 {
        if t.len() > 0 {
            assert(t.contains(t[0]));
        }
        assert(s =~= t);
    } else {
        assert(s.contains(s[0]));
        assert(t.len() > 0);
        assert(t.contains(t[0]));
        let i = choose|i: int| 0 <= i < s.len() && s[i] == t[0];
        let j = choose|j: int| 0 <= j < t.len() && t[j] == s[0];
        if i > 0 && j > 0 {
            assert(seq_lt(s[0], s[i]));
            assert(seq_lt(t[0], t[j]));
            lemma_seq_lt_asymmetric(s[0], t[0]);
        } else if i > 0 {
            lemma_seq_lt_irreflexive(s[0]);
        } else if j > 0 {
            lemma_seq_lt_irreflexive(t[0]);
        }
        assert(s[0] == t[0]);
        let s1 = s.drop_first();
        let t1 = t.drop_first();
        assert forall|x: Seq<char>| s1.contains(x) <==> t1.contains(x) by {
            if s1.contains(x) {
                let k = choose|k: int| 0 <= k < s1.len() && s1[k] == x;
                assert(s[k + 1] == x);
                assert(seq_lt(s[0], x));
                lemma_seq_lt_irreflexive(x);
                assert(t.contains(x));
                let m = choose|m: int| 0 <= m < t.len() && t[m] == x;
                assert(m != 0);
                assert(t1[m - 1] == x);
            }
            if t1.contains(x) {
                let k = choose|k: int| 0 <= k < t1.len() && t1[k] == x;
                assert(t[k + 1] == x);
                assert(seq_lt(t[0], x));
                lemma_seq_lt_irreflexive(x);
                assert(s.contains(x));
                let m = choose|m: int| 0 <= m < s.len() && s[m] == x;
                assert(m != 0);
                assert(s1[m - 1] == x);
            }
        }
        assert forall|a: int, b: int| 0 <= a < b < s1.len() implies seq_lt(s1[a], s1[b]) by {
            assert(s1[a] == s[a + 1] && s1[b] == s[b + 1]);
        }
        assert forall|a: int, b: int| 0 <= a < b < t1.len() implies seq_lt(t1[a], t1[b]) by {
            assert(t1[a] == t[a + 1] && t1[b] == t[b + 1]);
        }
        lemma_sorted_unique(s1, t1);
        assert(s =~= seq![s[0]] + s1);
        assert(t =~= seq![t[0]] + t1);
    }
}

/// Two aggregates of the same messages agree in every total and list the
/// same model ids in the same order.
pub proof fn lemma_aggregate_determined(
    r1: TranscriptAggregate,
    r2: TranscriptAggregate,
    ms: Seq<TranscriptMessage>,
    start: i64,
    end: i64,
)
    requires
        aggregates(r1, ms, start, end),
        aggregates(r2, ms, start, end),
    ensures
        r1.input_tokens == r2.input_tokens,
        r1.output_tokens == r2.output_tokens,
        r1.cache_read_tokens == r2.cache_read_tokens,
        r1.cache_write_tokens == r2.cache_write_tokens,
        r1.message_count == r2.message_count,
        string_views(r1.model_ids@) == string_views(r2.model_ids@),
{
    assert forall|x: Seq<char>| string_views(r1.model_ids@).contains(x) <==> string_views(r2.model_ids@).contains(x) by {
        assert(model_set(ms, start, end).contains(x) <==> string_views(r1.model_ids@).contains(x));
        assert(model_set(ms, start, end).contains(x) <==> string_views(r2.model_ids@).contains(x));
    }
    lemma_sorted_unique(string_views(r1.model_ids@), string_views(r2.model_ids@));
}

proof fn lemma_counted_sum_single(x: TranscriptMessage, start: i64, end: i64, f: UsageField)
    ensures
        counted_sum(seq![x], start, end, f) == if is_counted(x, start, end) { field_of(x, f) } else { 0 },
{
    assert(seq![x].drop_last() =~= Seq::<TranscriptMessage>::empty());
    assert(counted_sum(seq![x].drop_last(), start, end, f) == 0);
}

proof fn lemma_model_set_single(x: TranscriptMessage, start: i64, end: i64)
    ensures
        model_set(seq![x], start, end) == match counted_model(x, start, end) {
            Some(id) => Set::<Seq<char>>::empty().insert(id),
            None => Set::<Seq<char>>::empty(),
        },
{
    assert(seq![x].drop_last() =~= Seq::<TranscriptMessage>::empty());
    assert(model_set(seq![x].drop_last(), start, end) == Set::<Seq<char>>::empty());
}

/// Taking out the element at `i` of `b`: what is left, and that element, make
/// up `b` again.
proof fn lemma_split_at(b: Seq<TranscriptMessage>, i: int)
    requires
        0 <= i < b.len(),
    ensures
        b =~= b.take(i) + seq![b[i]] + b.skip(i + 1),
        b.remove(i) =~= b.take(i) + b.skip(i + 1),
{
}

proof fn lemma_counted_sum_permutation(
    a: Seq<TranscriptMessage>,
    b: Seq<TranscriptMessage>,
    start: i64,
    end: i64,
    f: UsageField,
)
    requires
        a.to_multiset() =~= b.to_multiset(),
    ensures
        counted_sum(a, start, end, f) == counted_sum(b, start, end, f),
        model_set(a, start, end) == model_set(b, start, end),
    decreases a.len(),
{
    broadcast use vstd::seq_lib::group_to_multiset_ensures;

    if a.len() == 0 {
        assert(b.to_multiset().len() == 0);
        assert(b =~= a);
    } else {
        let x = a.last();
        let a1 = a.drop_last();
        assert(a1.push(x) =~= a);
        assert(a.to_multiset() =~= a1.to_multiset().insert(x));
        assert(b.to_multiset().count(x) > 0);
        assert(b.contains(x));
        let i = choose|i: int| 0 <= i < b.len() && b[i] == x;
        let b1 = b.remove(i);
        assert(b1.to_multiset() =~= b.to_multiset().remove(x));
        assert(a1.to_multiset() =~= b1.to_multiset());
        lemma_counted_sum_permutation(a1, b1, start, end, f);
        lemma_split_at(b, i);
        let l = b.take(i);
        let r = b.skip(i + 1);
        lemma_counted_sum_concat(l + seq![x], r, start, end, f);
        lemma_counted_sum_concat(l, seq![x], start, end, f);
        lemma_counted_sum_concat(l, r, start, end, f);
        lemma_counted_sum_single(x, start, end, f);
        lemma_model_set_concat(l + seq![x], r, start, end);
        lemma_model_set_concat(l, seq![x], start, end);
        lemma_model_set_concat(l, r, start, end);
        lemma_model_set_single(x, start, end);
        assert(model_set(a, start, end) =~= model_set(b, start, end));
    }
}

/// The usage of a session does not depend on the order in which its messages
/// are read (the order of the transcript files in their directory, or of the
/// lines among them): two aggregates of the same messages, in any order, agree
/// in every total and list the same model ids in the same order.
pub proof fn lemma_aggregate_order_independent(
    r1: TranscriptAggregate,
    r2: TranscriptAggregate,
    a: Seq<TranscriptMessage>,
    b: Seq<TranscriptMessage>,
    start: i64,
    end: i64,
)
    requires
        a.to_multiset() =~= b.to_multiset(),
        aggregates(r1, a, start, end),
        aggregates(r2, b, start, end),
    ensures
        r1.input_tokens == r2.input_tokens,
        r1.output_tokens == r2.output_tokens,
        r1.cache_read_tokens == r2.cache_read_tokens,
        r1.cache_write_tokens == r2.cache_write_tokens,
        r1.message_count == r2.message_count,
        string_views(r1.model_ids@) == string_views(r2.model_ids@),
{
    lemma_counted_sum_permutation(a, b, start, end, UsageField::Input);
    lemma_counted_sum_permutation(a, b, start, end, UsageField::Output);
    lemma_counted_sum_permutation(a, b, start, end, UsageField::CacheRead);
    lemma_counted_sum_permutation(a, b, start, end, UsageField::CacheWrite);
    lemma_counted_sum_permutation(a, b, start, end, UsageField::Messages);
    assert forall|x: Seq<char>| string_views(r1.model_ids@).contains(x) <==> string_views(r2.model_ids@).contains(x) by {
        assert(model_set(a, start, end).contains(x) <==> string_views(r1.model_ids@).contains(x));
        assert(model_set(b, start, end).contains(x) <==> string_views(r2.model_ids@).contains(x));
    }
    lemma_sorted_unique(string_views(r1.model_ids@), string_views(r2.model_ids@));
}

proof fn lemma_counted_sum_window(
    ms: Seq<TranscriptMessage>,
    s1: i64,
    e1: i64,
    s2: i64,
    e2: i64,
    f: UsageField,
)
    requires
        s2 <= s1,
        e1 <= e2,
    ensures
        counted_sum(ms, s1, e1, f) <= counted_sum(ms, s2, e2, f),
        model_set(ms, s1, e1).subset_of(model_set(ms, s2, e2)),
    decreases ms.len(),
{
    if ms.len() > 0 {
        lemma_counted_sum_window(ms.drop_last(), s1, e1, s2, e2, f);
    }
}

/// Widening the time window never lowers the usage: with the same messages,
/// a window that starts no later and ends no earlier counts at least as many
/// messages and tokens of each kind, and every model id of the narrower window.
pub proof fn lemma_aggregate_window_monotone(
    r1: TranscriptAggregate,
    r2: TranscriptAggregate,
    ms: Seq<TranscriptMessage>,
    s1: i64,
    e1: i64,
    s2: i64,
    e2: i64,
)
    requires
        s2 <= s1,
        e1 <= e2,
        aggregates(r1, ms, s1, e1),
        aggregates(r2, ms, s2, e2),
    ensures
        r1.input_tokens <= r2.input_tokens,
        r1.output_tokens <= r2.output_tokens,
        r1.cache_read_tokens <= r2.cache_read_tokens,
        r1.cache_write_tokens <= r2.cache_write_tokens,
        r1.message_count <= r2.message_count,
        forall|x: Seq<char>| string_views(r1.model_ids@).contains(x) ==> string_views(r2.model_ids@).contains(x),
{
    lemma_counted_sum_window(ms, s1, e1, s2, e2, UsageField::Input);
    lemma_counted_sum_window(ms, s1, e1, s2, e2, UsageField::Output);
    lemma_counted_sum_window(ms, s1, e1, s2, e2, UsageField::CacheRead);
    lemma_counted_sum_window(ms, s1, e1, s2, e2, UsageField::CacheWrite);
    lemma_counted_sum_window(ms, s1, e1, s2, e2, UsageField::Messages);
    assert forall|x: Seq<char>| string_views(r1.model_ids@).contains(x) implies string_views(r2.model_ids@).contains(x) by {
        assert(model_set(ms, s1, e1).contains(x));
        assert(model_set(ms, s2, e2).contains(x));
    }
}

} // verus!
