//! Verified core of a one-shot cloud directory synchronizer.
//!
//! The crate merges three views of one file set — the local directory
//! snapshot, the persisted sync state, and the remote change feed — into an
//! ordered series of download/upload/delete actions, and maintains the state
//! that makes the next run incremental.  Everything here is pure logic over
//! plain values; the surrounding binary performs the filesystem and network
//! work and feeds the results back in.
//!
//! The engine itself lives in [`engine`], one proven transition at a time;
//! what whole runs guarantee — idempotence, deletion propagation, the
//! fresh-sync fetch, and the agreement of the tracking record with the
//! directory — is stated and proved in [`runs`].

use vstd::prelude::*;

pub mod codec;
pub mod delta;
pub mod engine;
pub mod keyed;
pub mod onedrive;
pub mod persist;
pub mod runs;
pub mod snapshot;
pub mod state;

verus! {

/// The cloud providers an account can belong to.
#[derive(Clone)]
pub enum SyncService {
    GDrive,
    Onedrive,
}

/// An OAuth token set.  Replaced wholesale on refresh, never mutated
/// field-by-field.
#[derive(Clone)]
pub struct Token {
    pub access_token: String,
    pub refresh_token: String,
    pub valid_till: u64,
}

/// The kind of one remote change.
#[derive(Debug)]
pub enum DriveDeltaType {
    Deleted,
    CreatedOrModified,
}

/// One remote change since the last cursor.
#[derive(Debug)]
pub struct DriveDelta {
    pub cloud_id: String,
    pub file_path: String,
    pub last_modified: u64,
    pub delta_type: DriveDeltaType,
}

/// A named account: provider, credentials, the last successful sync time,
/// and opaque provider-specific attributes (such as a delta cursor).
#[derive(Clone)]
pub struct Account {
    pub service: SyncService,
    pub token: Token,
    pub last_synced: u64,
    pub attributes: std::collections::HashMap<String, String>,
}

/// The escaping [`urlencode`] performs, character by character.
pub open spec fn urlencode_chars(s: Seq<char>) -> Seq<char>
    decreases s.len(),
{
    if s.len() == 0 {
        Seq::empty()
    } else {
        (if s[0] == ' ' {
            seq!['%', '2', '0']
        } else {
            seq![s[0]]
        }) + urlencode_chars(s.drop_first())
    }
}

proof fn lemma_urlencode_chars_concat(a: Seq<char>, b: Seq<char>)
    ensures
        urlencode_chars(a + b) == urlencode_chars(a) + urlencode_chars(b),
    decreases a.len(),
{
    if a.len() == 0 {
        assert(a + b =~= b);
        assert(urlencode_chars(a) + urlencode_chars(b) =~= urlencode_chars(b));
    } else {
        lemma_urlencode_chars_concat(a.drop_first(), b);
        assert((a + b).drop_first() =~= a.drop_first() + b);
        assert(urlencode_chars(a + b) =~= urlencode_chars(a) + urlencode_chars(b));
    }
}

/// Escapes the one character the remote path API cannot take literally:
/// every space becomes `%20`, all other characters pass through.
pub fn urlencode(data: &str) -> (r: String)
    ensures
        r@ == urlencode_chars(data@),
{
    let n = data.unicode_len();
    let mut out = String::new();
    let mut i: usize = 0;
    proof {
        assert(data@.take(0) =~= Seq::<char>::empty());
    }
    while i < n
        invariant
            n == data@.len(),
            i <= n,
            out@ == urlencode_chars(data@.take(i as int)),
        decreases n - i,
    {
        let c = data.get_char(i);
        if c == ' ' {
            out.append("%20");
        } else {
            push_char(&mut out, c);
        }
        proof {
            let s = data@;
            let j = i as int;
            assert(s.take(j + 1) =~= s.take(j) + seq![s[j]]);
            lemma_urlencode_chars_concat(s.take(j), seq![s[j]]);
            assert(seq![s[j]].drop_first() =~= Seq::<char>::empty());
            assert(urlencode_chars(Seq::<char>::empty()) =~= Seq::<char>::empty());
            assert(urlencode_chars(seq![s[j]]) == (if seq![s[j]][0] == ' ' {
                seq!['%', '2', '0']
            } else {
                seq![seq![s[j]][0]]
            }) + urlencode_chars(seq![s[j]].drop_first()));
            assert(urlencode_chars(seq![s[j]]) =~= (if s[j] == ' ' {
                seq!['%', '2', '0']
            } else {
                seq![s[j]]
            }));
            if s[j] == ' ' {
                reveal_strlit("%20");
                assert("%20"@ =~= seq!['%', '2', '0']);
            }
        }
        i = i + 1;
    }
    proof {
        assert(data@.take(n as int) =~= data@);
    }
    out
}

/// Relies on `String::push`: appends the given character to the end of the
/// string.
#[verifier::external_body]
pub(crate) fn push_char(s: &mut String, c: char)
    ensures
        final(s)@ == old(s)@.push(c),
{
    s.push(c);
}

/// Whether the account's token has expired as of second `now` and must be
/// refreshed before any phase may proceed.
pub fn token_expired(token: &Token, now: u64) -> (r: bool)
    ensures
        r == (now > token.valid_till),
{
    now > token.valid_till
}

/// Resets an account for a fresh sync: the cutoff drops to zero and every
/// provider attribute — the delta cursor among them — is discarded, so the
/// next delta fetch restarts from the provider's root.
pub fn fresh_reset(account: &mut Account)
    ensures
        final(account).last_synced == 0,
        final(account).attributes@ == Map::<String, String>::empty(),
        final(account).token == old(account).token,
        final(account).service == old(account).service,
{
    account.last_synced = 0;
    account.attributes = std::collections::HashMap::new();
}

/// Advances the account's cutoff to the moment of a completed run.  Called
/// only after the sync state was persisted: a failed commit must not move
/// the cutoff.
pub fn commit_last_synced(account: &mut Account, now: u64)
    ensures
        final(account).last_synced == now,
        final(account).attributes == old(account).attributes,
        final(account).token == old(account).token,
        final(account).service == old(account).service,
{
    account.last_synced = now;
}

} // verus!
