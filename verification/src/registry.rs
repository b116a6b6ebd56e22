//! Signature-keyed store of model and animation handles.
//!
//! The registry is populated once during the startup load phase and is
//! read-only afterwards. Loading a signature twice is a duplicate-load
//! fault and reading a signature that was never loaded is a not-loaded
//! fault; both are programming errors on the caller's side, reported as
//! explicit error values carrying the offending signature. Models and
//! animations live in disjoint namespaces.

use vstd::prelude::*;

verus! {

/// Opaque, cheaply copyable identity of a registered asset. The engine's
/// streaming collaborator resolves it to content asynchronously; this crate
/// only guarantees that one signature maps to one handle, forever.
#[derive(Clone, Copy, PartialEq, Eq, Structural, Debug)]
pub struct AssetHandle {
    pub id: usize,
}

/// One registered asset: the signature it is keyed under, the source path
/// handed to the engine's loader, and the handle issued for it.
pub struct Asset {
    pub signature: String,
    pub source: String,
    pub handle: AssetHandle,
}

/// The two fatal registry faults, each carrying the offending signature.
#[derive(Debug)]
pub enum RegistryError {
    /// The signature was already registered in the same namespace.
    DuplicateLoad(String),
    /// The signature was read before being registered.
    NotLoaded(String),
}

impl RegistryError {
    /// The signature the fault is about.
    pub fn signature(&self) -> (r: &String)
        ensures
            match self {
                RegistryError::DuplicateLoad(s) => r == s,
                RegistryError::NotLoaded(s) => r == s,
            },
    {
        match self {
            RegistryError::DuplicateLoad(s) => s,
            RegistryError::NotLoaded(s) => s,
        }
    }
}

/// First-match lookup of a signature in one namespace. Entries are scanned
/// front to back; under `wf` (all signatures distinct) the first match is
/// the only match.
pub open spec fn spec_lookup(entries: Seq<Asset>, sig: Seq<char>) -> Option<AssetHandle>
    decreases entries.len(),
{
    if entries.len() == 0 {
        None
    } else if entries[0].signature@ == sig {
        Some(entries[0].handle)
    } else {
        spec_lookup(entries.drop_first(), sig)
    }
}

/// All signatures of one namespace are pairwise distinct.
pub open spec fn distinct_signatures(entries: Seq<Asset>) -> bool {
    forall|i: int, j: int|
        0 <= i < j < entries.len() ==> entries[i].signature@ != entries[j].signature@
}

/// Signature-keyed store of model and animation handles, the single writer
/// of which is the startup load phase.
pub struct AssetRegistry {
    pub models: Vec<Asset>,
    pub animations: Vec<Asset>,
}

impl AssetRegistry {
    /// Both namespaces hold pairwise distinct signatures.
    pub open spec fn wf(self) -> bool {
        distinct_signatures(self.models@) && distinct_signatures(self.animations@)
    }

    pub open spec fn model_handle(self, sig: Seq<char>) -> Option<AssetHandle> {
        spec_lookup(self.models@, sig)
    }

    pub open spec fn animation_handle(self, sig: Seq<char>) -> Option<AssetHandle> {
        spec_lookup(self.animations@, sig)
    }

    pub fn new() -> (r: AssetRegistry)
        ensures
            r.models@ == Seq::<Asset>::empty(),
            r.animations@ == Seq::<Asset>::empty(),
            r.wf(),
    {
        AssetRegistry { models: Vec::new(), animations: Vec::new() }
    }

    /// Registers a model handle under `signature`; fails with a
    /// duplicate-load fault if the signature is already present.
    pub fn load_model(&mut self, signature: String, source: String) -> (r: Result<
        AssetHandle,
        RegistryError,
    >)
        ensures
            match r {
                Ok(h) => old(self).model_handle(signature@) is None && h.id == old(
                    self,
                ).models@.len() && final(self).models@ == old(self).models@.push(
                    (Asset { signature, source, handle: h }),
                ) && final(self).animations@ == old(self).animations@,
                Err(e) => e matches RegistryError::DuplicateLoad(t) && t@ == signature@ && old(
                    self,
                ).model_handle(signature@) is Some && *final(self) == *old(self),
            },
            old(self).wf() ==> final(self).wf(),
    {
        match find(&self.models, &signature) {
            Some(_) => Err(RegistryError::DuplicateLoad(signature)),
            None => {
                let handle = AssetHandle { id: self.models.len() };
                proof {
                    lemma_lookup_none_iff(self.models@, signature@);
                    if distinct_signatures(self.models@) {
                        lemma_distinct_push(
                            self.models@,
                            Asset { signature, source, handle },
                        );
                    }
                }
                self.models.push(Asset { signature, source, handle });
                Ok(handle)
            },
        }
    }

    /// Registers an animation handle under `signature`, in the namespace
    /// disjoint from models; fails with a duplicate-load fault if the
    /// signature is already present there.
    pub fn load_animation(&mut self, signature: String, source: String) -> (r: Result<
        AssetHandle,
        RegistryError,
    >)
        ensures
            match r {
                Ok(h) => old(self).animation_handle(signature@) is None && h.id == old(
                    self,
                ).animations@.len() && final(self).animations@ == old(self).animations@.push(
                    (Asset { signature, source, handle: h }),
                ) && final(self).models@ == old(self).models@,
                Err(e) => e matches RegistryError::DuplicateLoad(t) && t@ == signature@ && old(
                    self,
                ).animation_handle(signature@) is Some && *final(self) == *old(self),
            },
            old(self).wf() ==> final(self).wf(),
    {
        match find(&self.animations, &signature) {
            Some(_) => Err(RegistryError::DuplicateLoad(signature)),
            None => {
                let handle = AssetHandle { id: self.animations.len() };
                proof {
                    lemma_lookup_none_iff(self.animations@, signature@);
                    if distinct_signatures(self.animations@) {
                        lemma_distinct_push(
                            self.animations@,
                            Asset { signature, source, handle },
                        );
                    }
                }
                self.animations.push(Asset { signature, source, handle });
                Ok(handle)
            },
        }
    }

    /// Returns the handle registered for `signature`, or a not-loaded fault
    /// if the matching load never happened.
    pub fn get_model(&self, signature: &String) -> (r: Result<AssetHandle, RegistryError>)
        ensures
            match r {
                Ok(h) => self.model_handle(signature@) == Some(h),
                Err(e) => e matches RegistryError::NotLoaded(t) && t@ == signature@
                    && self.model_handle(signature@) is None,
            },
    {
        match find(&self.models, signature) {
            Some(h) => Ok(h),
            None => Err(RegistryError::NotLoaded(signature.clone())),
        }
    }

    /// Returns the handle registered for `signature` in the animation
    /// namespace, or a not-loaded fault.
    pub fn get_animation(&self, signature: &String) -> (r: Result<AssetHandle, RegistryError>)
        ensures
            match r {
                Ok(h) => self.animation_handle(signature@) == Some(h),
                Err(e) => e matches RegistryError::NotLoaded(t) && t@ == signature@
                    && self.animation_handle(signature@) is None,
            },
    {
        match find(&self.animations, signature) {
            Some(h) => Ok(h),
            None => Err(RegistryError::NotLoaded(signature.clone())),
        }
    }
}

/// Scans one namespace front to back for a signature.
fn find(entries: &Vec<Asset>, signature: &String) -> (r: Option<AssetHandle>)
    ensures
        r == spec_lookup(entries@, signature@),
{
    let n = entries.len();
    for i in 0..n
        invariant
            n == entries@.len(),
            forall|j: int| 0 <= j < i ==> entries@[j].signature@ != signature@,
    {
        if entries[i].signature == *signature {
            proof {
                lemma_lookup_first_match(entries@, signature@, i as int);
            }
            return Some(entries[i].handle);
        }
    }
    proof {
        lemma_lookup_none_iff(entries@, signature@);
    }
    None
}

/// If index `i` is the first match for `sig`, the lookup yields its handle.
proof fn lemma_lookup_first_match(entries: Seq<Asset>, sig: Seq<char>, i: int)
    requires
        0 <= i < entries.len(),
        entries[i].signature@ == sig,
        forall|j: int| 0 <= j < i ==> entries[j].signature@ != sig,
    ensures
        spec_lookup(entries, sig) == Some(entries[i].handle),
    decreases i,
{
    if i > 0 {
        lemma_lookup_first_match(entries.drop_first(), sig, i - 1);
    }
}

/// The lookup comes up empty exactly when no entry matches `sig`.
proof fn lemma_lookup_none_iff(entries: Seq<Asset>, sig: Seq<char>)
    ensures
        spec_lookup(entries, sig) is None <==> forall|j: int|
            0 <= j < entries.len() ==> entries[j].signature@ != sig,
    decreases entries.len(),
{
    if entries.len() > 0 {
        lemma_lookup_none_iff(entries.drop_first(), sig);
        assert(forall|j: int|
            1 <= j < entries.len() ==> entries[j] == entries.drop_first()[j - 1]);
    }
}

/// Appending an entry with a fresh signature keeps the signatures distinct.
proof fn lemma_distinct_push(entries: Seq<Asset>, a: Asset)
    requires
        distinct_signatures(entries),
        forall|j: int| 0 <= j < entries.len() ==> entries[j].signature@ != a.signature@,
    ensures
        distinct_signatures(entries.push(a)),
{
    let pushed = entries.push(a);
    assert forall|i: int, j: int| 0 <= i < j < pushed.len() implies pushed[i].signature@
        != pushed[j].signature@ by {
        if j == entries.len() {
            assert(pushed[i] == entries[i]);
            assert(pushed[j] == a);
        } else {
            assert(pushed[i] == entries[i]);
            assert(pushed[j] == entries[j]);
        }
    }
}

/// Appending an entry leaves every other signature's lookup unchanged, and
/// resolves the new entry's signature to the old binding where one existed,
/// else to the new handle.
pub proof fn lemma_lookup_push(entries: Seq<Asset>, a: Asset, sig: Seq<char>)
    ensures
        spec_lookup(entries, sig) is Some ==> spec_lookup(entries.push(a), sig) == spec_lookup(
            entries,
            sig,
        ),
        spec_lookup(entries, sig) is None && a.signature@ == sig ==> spec_lookup(
            entries.push(a),
            sig,
        ) == Some(a.handle),
        spec_lookup(entries, sig) is None && a.signature@ != sig ==> spec_lookup(
            entries.push(a),
            sig,
        ) is None,
    decreases entries.len(),
{
    if entries.len() > 0 {
        assert(entries.push(a).drop_first() =~= entries.drop_first().push(a));
        lemma_lookup_push(entries.drop_first(), a, sig);
    } else {
        assert(entries.push(a).drop_first() =~= Seq::<Asset>::empty());
        assert(spec_lookup(Seq::<Asset>::empty(), sig) is None);
    }
}

/// Entry `k` of a namespace carries the given signature and source, under
/// the handle issued for position `k`.
pub open spec fn row_at(entries: Seq<Asset>, k: int, sig: Seq<char>, source: Seq<char>) -> bool {
    &&& 0 <= k < entries.len()
    &&& entries[k].signature@ == sig
    &&& entries[k].source@ == source
    &&& entries[k].handle.id == k
}

/// The namespace grew from `pre` to `post` by exactly the given
/// `(signature, source)` rows, in order, each under a freshly issued handle.
pub open spec fn rows_appended(
    pre: Seq<Asset>,
    post: Seq<Asset>,
    rows: Seq<(Seq<char>, Seq<char>)>,
) -> bool {
    &&& post.len() == pre.len() + rows.len()
    &&& post.subrange(0, pre.len() as int) == pre
    &&& forall|k: int|
        0 <= k < rows.len() ==> #[trigger] row_at(post, pre.len() + k, rows[k].0, rows[k].1)
}

/// Two row batches loaded back to back amount to one concatenated batch.
pub proof fn lemma_rows_appended_compose(
    a: Seq<Asset>,
    b: Seq<Asset>,
    c: Seq<Asset>,
    r1: Seq<(Seq<char>, Seq<char>)>,
    r2: Seq<(Seq<char>, Seq<char>)>,
)
    requires
        rows_appended(a, b, r1),
        rows_appended(b, c, r2),
    ensures
        rows_appended(a, c, r1 + r2),
{
    assert(forall|i: int| 0 <= i < b.len() ==> b[i] == c[i]) by {
        assert(forall|i: int| 0 <= i < b.len() ==> b[i] == c.subrange(0, b.len() as int)[i]);
    }
    assert(c.subrange(0, a.len() as int) =~= a);
    assert forall|k: int| 0 <= k < (r1 + r2).len() implies #[trigger] row_at(
        c,
        a.len() + k,
        (r1 + r2)[k].0,
        (r1 + r2)[k].1,
    ) by {
        if k < r1.len() {
            assert(row_at(b, a.len() + k, r1[k].0, r1[k].1));
        } else {
            assert(row_at(c, b.len() + (k - r1.len()), r2[k - r1.len()].0, r2[k - r1.len()].1));
        }
    }
}

/// If the lookup finds a handle, a first matching index carries it.
proof fn lemma_lookup_first_index(entries: Seq<Asset>, sig: Seq<char>)
    requires
        spec_lookup(entries, sig) is Some,
    ensures
        exists|i: int|
            0 <= i < entries.len() && entries[i].signature@ == sig && (forall|j: int|
                0 <= j < i ==> entries[j].signature@ != sig) && spec_lookup(entries, sig) == Some(
                entries[i].handle,
            ),
    decreases entries.len(),
{
    if entries[0].signature@ == sig {
        let i: int = 0;
        assert(0 <= i < entries.len() && entries[i].signature@ == sig && (forall|j: int|
            0 <= j < i ==> entries[j].signature@ != sig) && spec_lookup(entries, sig) == Some(
            entries[i].handle,
        ));
    } else {
        lemma_lookup_first_index(entries.drop_first(), sig);
        let inner = choose|i: int|
            0 <= i < entries.drop_first().len() && entries.drop_first()[i].signature@ == sig && (
            forall|j: int|
                0 <= j < i ==> entries.drop_first()[j].signature@ != sig) && spec_lookup(
                entries.drop_first(),
                sig,
            ) == Some(entries.drop_first()[i].handle);
        let i = inner + 1;
        assert(forall|j: int|
            1 <= j < i ==> entries[j] == entries.drop_first()[j - 1]);
        assert(0 <= i < entries.len() && entries[i].signature@ == sig && (forall|j: int|
            0 <= j < i ==> entries[j].signature@ != sig) && spec_lookup(entries, sig) == Some(
            entries[i].handle,
        ));
    }
}

/// Appending rows never disturbs a signature that was already bound.
pub proof fn lemma_rows_appended_lookup_preserved(
    pre: Seq<Asset>,
    post: Seq<Asset>,
    rows: Seq<(Seq<char>, Seq<char>)>,
    sig: Seq<char>,
)
    requires
        rows_appended(pre, post, rows),
        spec_lookup(pre, sig) is Some,
    ensures
        spec_lookup(post, sig) == spec_lookup(pre, sig),
{
    lemma_lookup_first_index(pre, sig);
    let i = choose|i: int|
        0 <= i < pre.len() && pre[i].signature@ == sig && (forall|j: int|
            0 <= j < i ==> pre[j].signature@ != sig) && spec_lookup(pre, sig) == Some(
            pre[i].handle,
        );
    assert(forall|j: int| 0 <= j < pre.len() ==> pre[j] == post[j]) by {
        assert(forall|j: int| 0 <= j < pre.len() ==> pre[j] == post.subrange(0, pre.len() as int)[j]);
    }
    lemma_lookup_first_match(post, sig, i);
}

/// Appending rows cannot make an unrelated signature appear.
pub proof fn lemma_rows_appended_lookup_absent(
    pre: Seq<Asset>,
    post: Seq<Asset>,
    rows: Seq<(Seq<char>, Seq<char>)>,
    sig: Seq<char>,
)
    requires
        rows_appended(pre, post, rows),
        spec_lookup(pre, sig) is None,
        forall|k: int| 0 <= k < rows.len() ==> rows[k].0 != sig,
    ensures
        spec_lookup(post, sig) is None,
{
    lemma_lookup_none_iff(pre, sig);
    assert(forall|j: int| 0 <= j < pre.len() ==> pre[j] == post[j]) by {
        assert(forall|j: int| 0 <= j < pre.len() ==> pre[j] == post.subrange(0, pre.len() as int)[j]);
    }
    assert forall|j: int| 0 <= j < post.len() implies post[j].signature@ != sig by {
        if j >= pre.len() {
            assert(row_at(post, pre.len() + (j - pre.len()), rows[j - pre.len()].0, rows[j - pre.len()].1));
        }
    }
    lemma_lookup_none_iff(post, sig);
}

/// Appending rows leaves the binding of every signature outside the batch
/// exactly as it was.
pub proof fn lemma_rows_appended_lookup_iff(
    pre: Seq<Asset>,
    post: Seq<Asset>,
    rows: Seq<(Seq<char>, Seq<char>)>,
    sig: Seq<char>,
)
    requires
        rows_appended(pre, post, rows),
        forall|k: int| 0 <= k < rows.len() ==> rows[k].0 != sig,
    ensures
        spec_lookup(post, sig) == spec_lookup(pre, sig),
{
    if spec_lookup(pre, sig) is Some {
        lemma_rows_appended_lookup_preserved(pre, post, rows, sig);
    } else {
        lemma_rows_appended_lookup_absent(pre, post, rows, sig);
    }
}

/// Once a batch's row is in the namespace, its signature resolves.
pub proof fn lemma_rows_appended_resolves(
    pre: Seq<Asset>,
    post: Seq<Asset>,
    rows: Seq<(Seq<char>, Seq<char>)>,
    k: int,
)
    requires
        rows_appended(pre, post, rows),
        0 <= k < rows.len(),
    ensures
        spec_lookup(post, rows[k].0) is Some,
{
    assert(row_at(post, pre.len() + k, rows[k].0, rows[k].1));
    lemma_lookup_none_iff(post, rows[k].0);
}

/// Law: registering a fresh signature and then reading it yields exactly
/// the handle that was issued, a second registration of the same signature
/// is refused as a duplicate, and before any registration the signature
/// resolves to nothing. Both namespaces follow this protocol.
pub proof fn lemma_load_once_read_after(entries: Seq<Asset>, a: Asset)
    requires
        spec_lookup(entries, a.signature@) is None,
    ensures
        spec_lookup(entries.push(a), a.signature@) == Some(a.handle),
        spec_lookup(entries.push(a), a.signature@) is Some,
        spec_lookup(Seq::<Asset>::empty(), a.signature@) is None,
{
    lemma_lookup_push(entries, a, a.signature@);
}

} // verus!
