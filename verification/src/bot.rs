//! The client itself and its offset state machine.
//!
//! A `Bot` holds the authenticated base endpoint and the offset cursor:
//! the smallest update identifier not yet guaranteed delivered to the
//! handler.  The cursor starts at zero, never decreases, and is advanced
//! past every update that is handed out, before the hand-out, so that no
//! identifier is dispatched twice within one run.  The HTTP exchange is
//! left to the caller: this module builds the request URLs and consumes
//! the response bodies.

use vstd::prelude::*;
use vstd::math::max;
use vstd::string::*;
use crate::digits::dec_str;
use crate::endpoint::{compose_url, composed_url};
use crate::params::Params;
use crate::proto::{
    decode_updates_response, lemma_updates_ids_bounded, spec_classify, spec_updates_response,
    Classified, Decoded, Error, Update,
};
use crate::json::{json_of, JsonVal};

verus! {

/// Characters a credential token may hold: the ones that pass into the
/// endpoint's path without altering its structure.
pub open spec fn valid_token_char(c: char) -> bool {
    let u = c as u32;
    (('a' as u32) <= u && u <= ('z' as u32)) || (('A' as u32) <= u && u <= ('Z' as u32)) || ((
    '0' as u32) <= u && u <= ('9' as u32)) || c == ':' || c == '_' || c == '-'
}

/// A credential token that can form a valid base endpoint.
pub open spec fn valid_token(s: Seq<char>) -> bool {
    s.len() > 0 && forall|i: int| 0 <= i < s.len() ==> valid_token_char(#[trigger] s[i])
}

/// The base endpoint formed from a token, with its placeholder final
/// path segment.
pub open spec fn base_endpoint_of(token: Seq<char>) -> Seq<char> {
    "https://api.telegram.org/bot"@ + token + "/dummy"@
}

/// The next cursor value after seeing one identifier: one past it when
/// it is not yet acknowledged, unchanged otherwise.
pub open spec fn advance1(off: int, id: int) -> int {
    if id >= off {
        id + 1
    } else {
        off
    }
}

/// The cursor value after a whole batch is processed in arrival order.
pub open spec fn offset_after(off: int, batch: Seq<Update>) -> int
    decreases batch.len(),
{
    if batch.len() == 0 {
        off
    } else {
        offset_after(advance1(off, batch[0].update_id as int), batch.drop_first())
    }
}

/// The subsequence of a batch that is handed to the handler when the
/// cursor starts at `off`: each update whose identifier the cursor had
/// not yet passed, skipped otherwise.
pub open spec fn dispatched_of(off: int, batch: Seq<Update>) -> Seq<Update>
    decreases batch.len(),
{
    if batch.len() == 0 {
        Seq::empty()
    } else if batch[0].update_id as int >= off {
        seq![batch[0]] + dispatched_of(batch[0].update_id as int + 1, batch.drop_first())
    } else {
        dispatched_of(off, batch.drop_first())
    }
}

/// The largest identifier in a batch (one below every possible
/// identifier, for an empty batch).
pub open spec fn max_id(batch: Seq<Update>) -> int
    decreases batch.len(),
{
    if batch.len() == 0 {
        -0x8000_0000_0000_0001
    } else {
        max(batch[0].update_id as int, max_id(batch.drop_first()))
    }
}

/// Offset monotonicity: after a batch, the cursor equals the larger of
/// its old value and one past the batch's largest identifier; it never
/// decreases, and it lies past every identifier it has seen.
pub proof fn lemma_offset_monotonic(off: int, batch: Seq<Update>)
    requires
        -0x8000_0000_0000_0000 <= off,
    ensures
        offset_after(off, batch) == max(off, max_id(batch) + 1),
        offset_after(off, batch) >= off,
        forall|i: int|
            0 <= i < batch.len() ==> (#[trigger] batch[i]).update_id < offset_after(off, batch),
    decreases batch.len(),
{
    if batch.len() > 0 {
        let id0 = batch[0].update_id as int;
        lemma_offset_monotonic(advance1(off, id0), batch.drop_first());
        assert(advance1(off, id0) == max(off, id0 + 1));
        assert(max_id(batch) == max(id0, max_id(batch.drop_first())));
        assert(offset_after(off, batch) == max(advance1(off, id0), max_id(batch.drop_first()) + 1));
        assert(forall|i: int| 1 <= i < batch.len() ==> batch[i] == batch.drop_first()[i - 1]);
    }
}

/// No double dispatch: every dispatched update has an identifier the
/// cursor had not yet passed, and the dispatched identifiers strictly
/// increase, so no identifier is handed out twice in one batch.
pub proof fn lemma_no_double_dispatch(off: int, batch: Seq<Update>)
    ensures
        forall|i: int|
            0 <= i < dispatched_of(off, batch).len() ==> (#[trigger] dispatched_of(
                off,
                batch,
            )[i]).update_id >= off,
        forall|i: int, j: int|
            0 <= i < j < dispatched_of(off, batch).len() ==> dispatched_of(off, batch)[i].update_id
                < dispatched_of(off, batch)[j].update_id,
    decreases batch.len(),
{
    if batch.len() > 0 {
        let id0 = batch[0].update_id as int;
        let d = dispatched_of(off, batch);
        if id0 >= off {
            lemma_no_double_dispatch(id0 + 1, batch.drop_first());
            let rest = dispatched_of(id0 + 1, batch.drop_first());
            assert(d[0] == batch[0]);
            assert(forall|i: int| 1 <= i < d.len() ==> d[i] == rest[i - 1]);
        } else {
            lemma_no_double_dispatch(off, batch.drop_first());
        }
    }
}

/// Processing one run's batches in sequence is the same as processing
/// their concatenation: the cursor composes across polls.
pub proof fn lemma_offset_after_append(off: int, batch1: Seq<Update>, batch2: Seq<Update>)
    ensures
        offset_after(off, batch1 + batch2) == offset_after(offset_after(off, batch1), batch2),
    decreases batch1.len(),
{
    if batch1.len() == 0 {
        assert(batch1 + batch2 =~= batch2);
    } else {
        lemma_offset_after_append(
            advance1(off, batch1[0].update_id as int),
            batch1.drop_first(),
            batch2,
        );
        assert((batch1 + batch2).drop_first() =~= batch1.drop_first() + batch2);
        assert((batch1 + batch2)[0] == batch1[0]);
    }
}

/// The cursor a batch leaves behind is exactly one past the largest
/// identifier among the updates it advanced past — the dispatched ones —
/// or its old value when none was.
pub proof fn lemma_offset_is_one_past_dispatched(off: int, batch: Seq<Update>)
    requires
        -0x8000_0000_0000_0000 <= off,
    ensures
        offset_after(off, batch) == max(off, max_id(dispatched_of(off, batch)) + 1),
    decreases batch.len(),
{
    if batch.len() > 0 {
        let id0 = batch[0].update_id as int;
        let rest = batch.drop_first();
        if id0 >= off {
            lemma_offset_is_one_past_dispatched(id0 + 1, rest);
            let d = dispatched_of(off, batch);
            assert(d[0] == batch[0]);
            assert(d.drop_first() =~= dispatched_of(id0 + 1, rest));
            assert(max_id(d) == max(id0, max_id(dispatched_of(id0 + 1, rest))));
        } else {
            lemma_offset_is_one_past_dispatched(off, rest);
        }
    }
}

/// The cursor a batch leaves behind is never below the one it started
/// from.
pub proof fn lemma_offset_after_ge(off: int, batch: Seq<Update>)
    ensures
        offset_after(off, batch) >= off,
    decreases batch.len(),
{
    if batch.len() > 0 {
        lemma_offset_after_ge(advance1(off, batch[0].update_id as int), batch.drop_first());
    }
}

/// Every dispatched identifier lies below the cursor that its batch
/// leaves behind.
pub proof fn lemma_dispatched_below_cursor(off: int, batch: Seq<Update>)
    ensures
        forall|i: int|
            0 <= i < dispatched_of(off, batch).len() ==> (#[trigger] dispatched_of(
                off,
                batch,
            )[i]).update_id < offset_after(off, batch),
    decreases batch.len(),
{
    if batch.len() > 0 {
        let id0 = batch[0].update_id as int;
        let d = dispatched_of(off, batch);
        if id0 >= off {
            lemma_dispatched_below_cursor(id0 + 1, batch.drop_first());
            lemma_offset_after_ge(id0 + 1, batch.drop_first());
            assert(d[0] == batch[0]);
            assert(forall|i: int|
                1 <= i < d.len() ==> d[i] == dispatched_of(id0 + 1, batch.drop_first())[i - 1]);
        } else {
            lemma_dispatched_below_cursor(off, batch.drop_first());
        }
    }
}

/// No double dispatch across batches: an identifier handed out from one
/// batch is never handed out again from the next batch of the same run,
/// polled at the cursor the first batch left behind.
pub proof fn lemma_no_redispatch_across_batches(off: int, batch1: Seq<Update>, batch2: Seq<Update>)
    ensures
        forall|i: int, j: int|
            0 <= i < dispatched_of(off, batch1).len() && 0 <= j < dispatched_of(
                offset_after(off, batch1),
                batch2,
            ).len() ==> (#[trigger] dispatched_of(off, batch1)[i]).update_id != (
            #[trigger] dispatched_of(offset_after(off, batch1), batch2)[j]).update_id,
{
    lemma_dispatched_below_cursor(off, batch1);
    lemma_no_double_dispatch(offset_after(off, batch1), batch2);
}

/// The parameter set of one `getUpdates` call: the present values, in
/// the fixed order offset, limit, timeout, each stringified.
pub open spec fn get_updates_params(
    offset: Option<i64>,
    limit: Option<i64>,
    timeout: Option<i64>,
) -> Seq<(Seq<char>, Seq<char>)> {
    let s0 = Seq::<(Seq<char>, Seq<char>)>::empty();
    let s1 = match offset {
        Some(v) => s0.push(("offset"@, dec_str(v as int))),
        None => s0,
    };
    let s2 = match limit {
        Some(v) => s1.push(("limit"@, dec_str(v as int))),
        None => s1,
    };
    match timeout {
        Some(v) => s2.push(("timeout"@, dec_str(v as int))),
        None => s2,
    }
}

/// The poll timeout actually sent: the given one, or 30 when unspecified.
pub open spec fn effective_timeout(timeout: Option<i64>) -> i64 {
    match timeout {
        Some(t) => t,
        None => 30,
    }
}

/// The main type for doing everything.
#[derive(Debug)]
pub struct Bot {
    offset: i64,
    base: String,
}

impl Bot {
    /// The offset cursor: the smallest update identifier not yet
    /// guaranteed delivered.
    pub closed spec fn spec_offset(&self) -> i64 {
        self.offset
    }

    /// The base endpoint the client was constructed with.
    pub closed spec fn spec_base(&self) -> Seq<char> {
        self.base@
    }

    /// The client's invariant: the cursor never goes below its starting
    /// point.
    pub open spec fn wf(&self) -> bool {
        0 <= self.spec_offset()
    }

    /// Creates a new bot with the given token.  A token that cannot form
    /// a valid endpoint is a configuration error, reported rather than
    /// recovered from.  The token is not checked against the server;
    /// `getMe` serves as a test request.
    pub fn new(token: String) -> (r: Result<Bot, Error>)
        ensures
            valid_token(token@) ==> (r matches Ok(b) && b.wf() && b.spec_offset() == 0
                && b.spec_base() == base_endpoint_of(token@)),
            !valid_token(token@) ==> (r matches Err(e) && e matches Error::Config(_)),
    {
        if !token_ok(token.as_str()) {
            return Err(Error::Config("invalid token: cannot form an endpoint".to_owned()));
        }
        let mut base = "https://api.telegram.org/bot".to_owned();
        base.append(token.as_str());
        base.append("/dummy");
        Ok(Bot { offset: 0, base })
    }

    /// The current offset cursor.
    pub fn offset(&self) -> (r: i64)
        ensures
            r == self.spec_offset(),
    {
        self.offset
    }

    /// The request URL of one method call against this client's
    /// endpoint.
    pub fn request_url(&self, method: &str, params: &Params) -> (r: String)
        ensures
            r@ == composed_url(self.spec_base(), method@, params@),
    {
        compose_url(self.base.as_str(), method, params)
    }

    /// The request URL of a `getMe` call: no parameters.
    pub fn get_me_url(&self) -> (r: String)
        ensures
            r@ == composed_url(
                self.spec_base(),
                "getMe"@,
                Seq::<(Seq<char>, Seq<char>)>::empty(),
            ),
    {
        let params = Params::new();
        self.request_url("getMe", &params)
    }

    /// The request URL of a `getUpdates` call with the given optional
    /// parameters.  The offset parameter is not set on its own; for a
    /// higher-level way to receive updates, see `poll_url` and
    /// `poll_step`.
    pub fn get_updates_url(
        &self,
        offset: Option<i64>,
        limit: Option<i64>,
        timeout: Option<i64>,
    ) -> (r: String)
        ensures
            r@ == composed_url(
                self.spec_base(),
                "getUpdates"@,
                get_updates_params(offset, limit, timeout),
            ),
    {
        let mut params = Params::new();
        params.add_get_opt("offset", offset);
        params.add_get_opt("limit", limit);
        params.add_get_opt("timeout", timeout);
        self.request_url("getUpdates", &params)
    }

    /// The request URL of the next poll: a `getUpdates` call from the
    /// current cursor, with the given timeout or the default of 30.
    pub fn poll_url(&self, timeout: Option<i64>) -> (r: String)
        ensures
            r@ == composed_url(
                self.spec_base(),
                "getUpdates"@,
                get_updates_params(
                    Some(self.spec_offset()),
                    None,
                    Some(effective_timeout(timeout)),
                ),
            ),
    {
        let t: i64 = match timeout {
            Some(t) => t,
            None => 30,
        };
        self.get_updates_url(Some(self.offset), None, Some(t))
    }

    /// Processes one received batch in arrival order: advances the
    /// cursor past each update whose identifier it had not yet passed —
    /// before any hand-out — and yields exactly those updates, in order,
    /// for dispatch.  Updates the cursor had already passed are skipped.
    pub fn process_batch(&mut self, batch: Vec<Update>) -> (dispatched: Vec<Update>)
        requires
            old(self).wf(),
            forall|i: int|
                0 <= i < batch@.len() ==> (#[trigger] batch@[i]).update_id
                    < 0x7fff_ffff_ffff_ffff,
        ensures
            final(self).wf(),
            final(self).spec_base() == old(self).spec_base(),
            final(self).spec_offset() as int == offset_after(
                old(self).spec_offset() as int,
                batch@,
            ),
            dispatched@ == dispatched_of(old(self).spec_offset() as int, batch@),
    {
        let ghost off0 = self.spec_offset() as int;
        let ghost whole = batch@;
        let ghost base0 = self.spec_base();
        let mut batch = batch;
        let mut out: Vec<Update> = Vec::new();
        proof {
            assert(out@ + dispatched_of(off0, whole) =~= dispatched_of(off0, whole));
        }
        while batch.len() > 0
            invariant
                self.wf(),
                self.spec_base() == base0,
                forall|i: int|
                    0 <= i < batch@.len() ==> (#[trigger] batch@[i]).update_id
                        < 0x7fff_ffff_ffff_ffff,
                offset_after(off0, whole) == offset_after(self.spec_offset() as int, batch@),
                dispatched_of(off0, whole) == out@ + dispatched_of(
                    self.spec_offset() as int,
                    batch@,
                ),
            decreases batch@.len(),
        {
            let ghost before = batch@;
            let ghost out_before = out@;
            let ghost cur = self.spec_offset() as int;
            let u = batch.remove(0);
            proof {
                assert(before[0].update_id < 0x7fff_ffff_ffff_ffff);
                assert(before.drop_first() =~= batch@);
            }
            if u.update_id >= self.offset {
                self.offset = u.update_id + 1;
                let ghost uu = u;
                out.push(u);
                proof {
                    assert(dispatched_of(cur, before) =~= seq![uu] + dispatched_of(
                        uu.update_id as int + 1,
                        batch@,
                    ));
                    assert(out@ =~= out_before + seq![uu]);
                    assert(out_before + (seq![uu] + dispatched_of(uu.update_id as int + 1, batch@))
                        =~= (out_before + seq![uu]) + dispatched_of(
                        uu.update_id as int + 1,
                        batch@,
                    ));
                }
            }
        }
        proof {
            assert(out@ + dispatched_of(self.spec_offset() as int, batch@) =~= out@);
        }
        out
    }

    /// Consumes one poll response body: decodes it as a `getUpdates`
    /// envelope and, on success, processes the batch; any of the four
    /// error kinds is handed back with the cursor untouched.
    pub fn poll_step(&mut self, body: &str) -> (r: Result<Vec<Update>, Error>)
        requires
            old(self).wf(),
        ensures
            final(self).wf(),
            final(self).spec_base() == old(self).spec_base(),
            match spec_updates_response(json_of(body@)) {
                Decoded::Payload(us) => r matches Ok(d) && d@ == dispatched_of(
                    old(self).spec_offset() as int,
                    us,
                ) && final(self).spec_offset() as int == offset_after(
                    old(self).spec_offset() as int,
                    us,
                ),
                Decoded::Api(desc) => r matches Err(e) && (e matches Error::Api(s) && s == desc)
                    && final(self).spec_offset() == old(self).spec_offset(),
                Decoded::State => r matches Err(e) && (e matches Error::InvalidState(s) && s@
                    == "Invalid server response"@) && final(self).spec_offset()
                    == old(self).spec_offset(),
                Decoded::Shape => r matches Err(e) && (e matches Error::Json(_))
                    && final(self).spec_offset() == old(self).spec_offset(),
            },
    {
        match decode_updates_response(body) {
            Ok(batch) => {
                proof {
                    match json_of(body@) {
                        Some(v) => match spec_classify(v) {
                            Classified::Payload(p) => {
                                lemma_updates_ids_bounded(arr_elems_of(p));
                            },
                            _ => {},
                        },
                        None => {},
                    }
                }
                let dispatched = self.process_batch(batch);
                Ok(dispatched)
            },
            Err(e) => Err(e),
        }
    }
}

/// The elements of an array value (empty for any other value).
pub open spec fn arr_elems_of(v: JsonVal) -> Seq<JsonVal> {
    match v {
        JsonVal::Arr(elems) => elems@,
        _ => Seq::empty(),
    }
}

/// Whether a token could serve as a credential: non-empty, all
/// characters endpoint-safe.
fn token_ok(s: &str) -> (r: bool)
    ensures
        r == valid_token(s@),
{
    let len = s.unicode_len();
    if len == 0 {
        return false;
    }
    let mut i: usize = 0;
    while i < len
        invariant
            i <= len,
            len == s@.len(),
            forall|k: int| 0 <= k < i ==> valid_token_char(#[trigger] s@[k]),
        decreases len - i,
    {
        let c = s.get_char(i);
        let u = c as u32;
        let good = (97 <= u && u <= 122) || (65 <= u && u <= 90) || (48 <= u && u <= 57) || c == ':'
            || c == '_' || c == '-';
        if !good {
            return false;
        }
        i = i + 1;
    }
    true
}

} // verus!
