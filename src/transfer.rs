use vstd::prelude::*;
use crate::error::SessionError;

verus! {

/// One file of the item: its path relative to the root, its size, its content checksum.
#[derive(Debug, Clone)]
pub struct ManifestEntry {
    pub path: Vec<u8>,
    pub size: u64,
    pub checksum: u64,
}

/// The item a sender offers: built once, then never changed during the session.
#[derive(Debug, Clone)]
pub struct Manifest {
    pub root: Vec<u8>,
    pub is_dir: bool,
    pub entries: Vec<ManifestEntry>,
    pub total: u64,
    pub checksum: u64,
}

/// Why a list of entries makes no manifest.
#[derive(Debug, Clone, Copy, PartialEq, Eq, Structural)]
pub enum ManifestError {
    /// Paths are not strictly ascending byte-wise; the index of the first that is out of place.
    Unordered { index: usize },
    /// The sizes add up to more than a `u64` holds.
    TooLarge,
}

/// `a` comes strictly before `b` in byte-wise lexicographic order.
pub open spec fn lex_lt(a: Seq<u8>, b: Seq<u8>) -> bool
    decreases a.len(),
{
    if b.len() == 0 {
        false
    } else if a.len() == 0 {
        true
    } else if a[0] != b[0] {
        a[0] < b[0]
    } else {
        lex_lt(a.drop_first(), b.drop_first())
    }
}

/// Each path comes strictly after the one before it.
pub open spec fn paths_ascending(s: Seq<ManifestEntry>) -> bool {
    forall|i: int| 0 < i < s.len() ==> lex_lt(#[trigger] s[i - 1].path@, s[i].path@)
}

pub open spec fn sum_sizes(s: Seq<ManifestEntry>) -> int
    decreases s.len(),
{
    if s.len() == 0 {
        0
    } else {
        sum_sizes(s.drop_last()) + s.last().size
    }
}

pub open spec fn sum_u64(s: Seq<u64>) -> int
    decreases s.len(),
{
    if s.len() == 0 {
        0
    } else {
        sum_u64(s.drop_last()) + s.last()
    }
}

proof fn lemma_sum_sizes_prefix(s: Seq<ManifestEntry>, i: int)
    requires
        0 <= i <= s.len(),
    ensures
        sum_sizes(s.subrange(0, i)) <= sum_sizes(s),
    decreases s.len() - i,
{
    if i < s.len() {
        lemma_sum_sizes_prefix(s, i + 1);
        assert(s.subrange(0, i + 1).drop_last() =~= s.subrange(0, i));
    } else {
        assert(s.subrange(0, i) =~= s);
    }
}

proof fn lemma_sums_agree(o: Seq<u64>, s: Seq<ManifestEntry>)
    requires
        o.len() == s.len(),
        forall|i: int| 0 <= i < s.len() ==> o[i] == #[trigger] s[i].size,
    ensures
        sum_u64(o) == sum_sizes(s),
    decreases s.len(),
{
    if s.len() > 0 {
        lemma_sums_agree(o.drop_last(), s.drop_last());
    }
}

fn path_lt(a: &Vec<u8>, b: &Vec<u8>) -> (r: bool)
    ensures
        r == lex_lt(a@, b@),
{
    let mut i: usize = 0;
    assert(a@.skip(0) =~= a@ && b@.skip(0) =~= b@);
    while i < a.len() && i < b.len()
        invariant
            0 <= i <= a@.len(),
            i <= b@.len(),
            lex_lt(a@, b@) == lex_lt(a@.skip(i as int), b@.skip(i as int)),
        decreases a@.len() - i,
    {
        if a[i] != b[i] {
            return a[i] < b[i];
        }
        assert(a@.skip(i as int).drop_first() =~= a@.skip(i + 1));
        assert(b@.skip(i as int).drop_first() =~= b@.skip(i + 1));
        i = i + 1;
    }
    i < b.len()
}

impl Manifest {
    pub open spec fn wf(&self) -> bool {
        &&& paths_ascending(self.entries@)
        &&& self.total == sum_sizes(self.entries@)
    }

    /// A manifest over `entries`, which must come in strictly ascending path order; its total
    /// is the sum of their sizes.
    pub fn new(root: Vec<u8>, is_dir: bool, entries: Vec<ManifestEntry>, checksum: u64) -> (r: Result<Manifest, ManifestError>)
        ensures
            match r {
                Ok(m) => {
                    &&& m.wf()
                    &&& m.root == root && m.is_dir == is_dir && m.entries == entries && m.checksum == checksum
                },
                Err(ManifestError::Unordered { index }) => {
                    &&& 0 < index < entries@.len()
                    &&& !lex_lt(entries@[index - 1].path@, entries@[index as int].path@)
                    &&& paths_ascending(entries@.subrange(0, index as int))
                },
                Err(ManifestError::TooLarge) => paths_ascending(entries@) && sum_sizes(entries@) > u64::MAX,
            },
    {
        let mut i: usize = 1;
        while i < entries.len()
            invariant
                1 <= i,
                i <= entries@.len() || entries@.len() == 0,
                paths_ascending(entries@.subrange(0, i as int)) || entries@.len() == 0,
            decreases entries@.len() - i,
        {
            if !path_lt(&entries[i - 1].path, &entries[i].path) {
                return Err(ManifestError::Unordered { index: i });
            }
            proof {
                let s = entries@.subrange(0, i + 1);
                assert forall|k: int| 0 < k < s.len() implies lex_lt(#[trigger] s[k - 1].path@, s[k].path@) by {
                    if k < i {
                        assert(s[k - 1] == entries@.subrange(0, i as int)[k - 1]);
                        assert(s[k] == entries@.subrange(0, i as int)[k]);
                    }
                }
            }
            i = i + 1;
        }
        proof {
            if entries@.len() > 0 {
                assert(entries@.subrange(0, entries@.len() as int) =~= entries@);
            }
        }
        let mut total: u64 = 0;
        let mut j: usize = 0;
        while j < entries.len()
            invariant
                0 <= j <= entries@.len(),
                paths_ascending(entries@),
                total == sum_sizes(entries@.subrange(0, j as int)),
            decreases entries@.len() - j,
        {
            proof {
                assert(entries@.subrange(0, j + 1).drop_last() =~= entries@.subrange(0, j as int));
            }
            match total.checked_add(entries[j].size) {
                Some(t) => {
                    total = t;
                },
                None => {
                    proof {
                        lemma_sum_sizes_prefix(entries@, j + 1);
                    }
                    return Err(ManifestError::TooLarge);
                },
            }
            j = j + 1;
        }
        assert(entries@.subrange(0, entries@.len() as int) =~= entries@);
        Ok(Manifest { root, is_dir, entries, total, checksum })
    }
}

/// Where a file of the item lands: under the root's name, or under `rename` where one was
/// given; the path inside the root is kept as it is.
pub fn target_path(root: &Vec<u8>, rename: &Option<Vec<u8>>, relative: &Vec<u8>) -> (r: Vec<u8>)
    ensures
        r@ == (match rename {
            Some(n) => n@,
            None => root@,
        }) + seq![47u8] + relative@,
{
    let mut r: Vec<u8> = Vec::new();
    let head: &Vec<u8> = match rename {
        Some(n) => n,
        None => root,
    };
    let mut i: usize = 0;
    while i < head.len()
        invariant
            0 <= i <= head@.len(),
            r@ == head@.subrange(0, i as int),
        decreases head@.len() - i,
    {
        r.push(head[i]);
        i = i + 1;
        assert(r@ =~= head@.subrange(0, i as int));
    }
    r.push(47u8);
    let ghost mid = r@;
    assert(mid =~= head@ + seq![47u8]);
    let mut j: usize = 0;
    while j < relative.len()
        invariant
            0 <= j <= relative@.len(),
            r@ == mid + relative@.subrange(0, j as int),
        decreases relative@.len() - j,
    {
        r.push(relative[j]);
        j = j + 1;
        assert(r@ =~= mid + relative@.subrange(0, j as int));
    }
    assert(relative@.subrange(0, relative@.len() as int) =~= relative@);
    r
}

/// The length of the chunk at `offset` of a file of `size` bytes: `chunk_max`, or what is left.
pub open spec fn chunk_len(size: u64, offset: u64, chunk_max: u64) -> u64 {
    if size - offset < chunk_max {
        (size - offset) as u64
    } else {
        chunk_max
    }
}

/// The next chunk the sender streams of a file of `size` bytes, from `offset` on, at most
/// `chunk_max` bytes long: its start and length. `None` once the file is through.
pub fn next_chunk(size: u64, offset: u64, chunk_max: u64) -> (r: Option<(u64, u64)>)
    requires
        chunk_max > 0,
    ensures
        offset >= size ==> r is None,
        offset < size ==> r == Some((offset, chunk_len(size, offset, chunk_max))),
{
    if offset >= size {
        None
    } else if size - offset < chunk_max {
        Some((offset, size - offset))
    } else {
        Some((offset, chunk_max))
    }
}

/// One chunk the sender streams: file index, start, length and sequence number.
#[derive(Debug, Clone, Copy, PartialEq, Eq, Structural)]
pub struct ChunkPlan {
    pub file: usize,
    pub offset: u64,
    pub len: u64,
    pub seq: u64,
}

/// The sending side of one transfer: files go in manifest order, each from the offset the
/// receiver asked for.
#[derive(Debug, Clone)]
pub struct Sender {
    pub manifest: Manifest,
    pub offsets: Vec<u64>,
    pub file: usize,
    pub next_seq: u64,
}

/// The offsets fit the manifest's files one for one.
pub open spec fn offsets_fit(o: Seq<u64>, m: Manifest) -> bool {
    &&& o.len() == m.entries@.len()
    &&& forall|i: int| 0 <= i < o.len() ==> #[trigger] o[i] <= m.entries@[i].size
}

impl Sender {
    pub open spec fn wf(&self) -> bool {
        &&& self.manifest.wf()
        &&& offsets_fit(self.offsets@, self.manifest)
        &&& self.file <= self.offsets@.len()
    }

    /// A sender for `manifest` that resumes at the receiver's `resume` offsets; offsets that do
    /// not fit the manifest are a broken reply.
    pub fn start(manifest: Manifest, resume: Vec<u64>) -> (r: Result<Sender, SessionError>)
        requires
            manifest.wf(),
        ensures
            offsets_fit(resume@, manifest) ==> (r matches Ok(s) && s.wf() && s.manifest == manifest
                && s.offsets@ == resume@ && s.file == 0 && s.next_seq == 0),
            !offsets_fit(resume@, manifest) ==> r == Err::<Sender, SessionError>(SessionError::TransportError),
    {
        if resume.len() != manifest.entries.len() {
            return Err(SessionError::TransportError);
        }
        let mut i: usize = 0;
        while i < resume.len()
            invariant
                0 <= i <= resume@.len(),
                resume@.len() == manifest.entries@.len(),
                forall|k: int| 0 <= k < i ==> #[trigger] resume@[k] <= manifest.entries@[k].size,
            decreases resume@.len() - i,
        {
            if resume[i] > manifest.entries[i].size {
                return Err(SessionError::TransportError);
            }
            i = i + 1;
        }
        Ok(Sender { manifest, offsets: resume, file: 0, next_seq: 0 })
    }

    /// The next chunk to stream, at most `chunk_max` bytes: the first file from the current one
    /// on that is not through, from its offset. `None` once every file is through (or the
    /// sequence numbers ran out). Offsets only grow, so nothing before a resume offset is sent.
    pub fn next(&mut self, chunk_max: u64) -> (r: Option<ChunkPlan>)
        requires
            old(self).wf(),
            chunk_max > 0,
        ensures
            final(self).wf(),
            final(self).manifest == old(self).manifest,
            final(self).file >= old(self).file,
            forall|f: int| 0 <= f < old(self).offsets@.len() ==> #[trigger] final(self).offsets@[f] >= old(self).offsets@[f],
            forall|f: int| old(self).file <= f < final(self).file ==> #[trigger] old(self).offsets@[f] == old(self).manifest.entries@[f].size,
            match r {
                Some(c) => {
                    &&& c.file == final(self).file
                    &&& c.file < old(self).offsets@.len()
                    &&& c.offset == old(self).offsets@[c.file as int]
                    &&& c.offset < old(self).manifest.entries@[c.file as int].size
                    &&& c.len == chunk_len(old(self).manifest.entries@[c.file as int].size, c.offset, chunk_max)
                    &&& c.seq == old(self).next_seq
                    &&& final(self).next_seq == c.seq + 1
                    &&& final(self).offsets@ == old(self).offsets@.update(c.file as int, (c.offset + c.len) as u64)
                },
                None => {
                    &&& final(self).offsets@ == old(self).offsets@
                    &&& old(self).next_seq < u64::MAX ==> final(self).file == old(self).offsets@.len()
                },
            },
    {
        if self.next_seq == u64::MAX {
            return None;
        }
        while self.file < self.offsets.len() && self.offsets[self.file] == self.manifest.entries[self.file].size
            invariant
                self.wf(),
                self.manifest == old(self).manifest,
                self.offsets == old(self).offsets,
                self.next_seq == old(self).next_seq,
                self.file >= old(self).file,
                forall|f: int| old(self).file <= f < self.file ==> #[trigger] old(self).offsets@[f] == old(self).manifest.entries@[f].size,
            decreases self.offsets@.len() - self.file,
        {
            self.file = self.file + 1;
        }
        if self.file == self.offsets.len() {
            return None;
        }
        let f = self.file;
        let size = self.manifest.entries[f].size;
        let offset = self.offsets[f];
        match next_chunk(size, offset, chunk_max) {
            Some((start, len)) => {
                let seq = self.next_seq;
                self.offsets.set(f, start + len);
                self.next_seq = seq + 1;
                Some(ChunkPlan { file: f, offset: start, len, seq })
            },
            None => None,
        }
    }
}

/// The (fingerprint, manifest checksum) pairs whose progress record a session is writing.
/// At most one session holds a pair at a time.
#[derive(Debug, Clone)]
pub struct ProgressLocks {
    pub held: Vec<(u64, u64)>,
}

impl ProgressLocks {
    /// No pair appears twice.
    pub open spec fn wf(&self) -> bool {
        forall|i: int, j: int| 0 <= i < j < self.held@.len() ==> #[trigger] self.held@[i] != #[trigger] self.held@[j]
    }

    pub open spec fn holds(&self, key: (u64, u64)) -> bool {
        self.held@.contains(key)
    }

    pub fn new() -> (r: ProgressLocks)
        ensures
            r.wf(),
            r.held@.len() == 0,
    {
        ProgressLocks { held: Vec::new() }
    }

    fn position(&self, key: (u64, u64)) -> (r: Option<usize>)
        ensures
            match r {
                Some(i) => i < self.held@.len() && self.held@[i as int] == key,
                None => !self.holds(key),
            },
    {
        let mut i: usize = 0;
        while i < self.held.len()
            invariant
                0 <= i <= self.held@.len(),
                forall|k: int| 0 <= k < i ==> #[trigger] self.held@[k] != key,
            decreases self.held@.len() - i,
        {
            if self.held[i].0 == key.0 && self.held[i].1 == key.1 {
                return Some(i);
            }
            i = i + 1;
        }
        None
    }

    /// Takes `key` for one session: `true`, and it is held, where no session held it;
    /// `false`, changing nothing, where one did.
    pub fn acquire(&mut self, key: (u64, u64)) -> (r: bool)
        requires
            old(self).wf(),
        ensures
            final(self).wf(),
            r == !old(self).holds(key),
            r ==> final(self).held@ == old(self).held@.push(key),
            !r ==> final(self).held@ == old(self).held@,
    {
        match self.position(key) {
            Some(_) => false,
            None => {
                self.held.push(key);
                true
            },
        }
    }

    /// Gives `key` back; `true` where it was held.
    pub fn release(&mut self, key: (u64, u64)) -> (r: bool)
        requires
            old(self).wf(),
        ensures
            final(self).wf(),
            r == old(self).holds(key),
            !final(self).holds(key),
            forall|k: (u64, u64)| k != key ==> (final(self).holds(k) <==> old(self).holds(k)),
    {
        match self.position(key) {
            Some(i) => {
                let ghost before = self.held@;
                self.held.remove(i);
                assert(forall|j: int| 0 <= j < self.held@.len() ==> #[trigger] self.held@[j] == before[if j < i { j } else { j + 1 }]);
                assert forall|k: (u64, u64)| final(self).holds(k) <==> (before.contains(k) && k != key) by {
                    if before.contains(k) && k != key {
                        let m = choose|m: int| 0 <= m < before.len() && before[m] == k;
                        assert(m != i);
                        let j = if m < i { m } else { m - 1 };
                        assert(self.held@[j] == k);
                    }
                    if self.held@.contains(k) {
                        let j = choose|j: int| 0 <= j < self.held@.len() && self.held@[j] == k;
                        let m = if j < i { j } else { j + 1 };
                        assert(before[m] == k);
                        assert(m != i);
                    }
                }
                true
            },
            None => false,
        }
    }
}

/// Per-file offsets confirmed on the receiver's side, kept so a dropped session can resume.
/// It belongs to one (fingerprint, manifest checksum) pair.
#[derive(Debug, Clone)]
pub struct Progress {
    pub fingerprint: u64,
    pub manifest_checksum: u64,
    pub offsets: Vec<u64>,
}

/// Where a receiving session stands.
#[derive(Debug, Clone, Copy, PartialEq, Eq, Structural)]
pub enum TransferState {
    Streaming,
    Completed,
    Failed { error: SessionError },
}

/// The receiving side of one transfer.
#[derive(Debug, Clone)]
pub struct Receiver {
    pub manifest: Manifest,
    pub fingerprint: u64,
    pub offsets: Vec<u64>,
    pub verified: Vec<bool>,
    pub next_seq: u64,
    pub state: TransferState,
}

/// `p` was saved for this fingerprint and manifest, and its offsets fit the manifest's files.
pub open spec fn progress_matches(p: Progress, fp: u64, m: Manifest) -> bool {
    &&& p.fingerprint == fp
    &&& p.manifest_checksum == m.checksum
    &&& p.offsets@.len() == m.entries@.len()
    &&& forall|i: int| 0 <= i < p.offsets@.len() ==> #[trigger] p.offsets@[i] <= m.entries@[i].size
}

pub open spec fn all_true(s: Seq<bool>) -> bool {
    forall|i: int| 0 <= i < s.len() ==> #[trigger] s[i]
}

fn check_progress(p: &Progress, fp: u64, m: &Manifest) -> (r: bool)
    ensures
        r == progress_matches(*p, fp, *m),
{
    if p.fingerprint != fp || p.manifest_checksum != m.checksum || p.offsets.len() != m.entries.len() {
        return false;
    }
    let mut i: usize = 0;
    while i < p.offsets.len()
        invariant
            0 <= i <= p.offsets@.len(),
            p.offsets@.len() == m.entries@.len(),
            forall|k: int| 0 <= k < i ==> #[trigger] p.offsets@[k] <= m.entries@[k].size,
        decreases p.offsets@.len() - i,
    {
        if p.offsets[i] > m.entries[i].size {
            return false;
        }
        i = i + 1;
    }
    true
}

fn all_set(v: &Vec<bool>) -> (r: bool)
    ensures
        r == all_true(v@),
{
    let mut i: usize = 0;
    while i < v.len()
        invariant
            0 <= i <= v@.len(),
            forall|k: int| 0 <= k < i ==> #[trigger] v@[k],
        decreases v@.len() - i,
    {
        if !v[i] {
            return false;
        }
        i = i + 1;
    }
    true
}

impl Receiver {
    pub open spec fn wf(&self) -> bool {
        let n = self.manifest.entries@.len();
        &&& self.manifest.wf()
        &&& self.offsets@.len() == n
        &&& self.verified@.len() == n
        &&& forall|i: int| 0 <= i < n ==> #[trigger] self.offsets@[i] <= self.manifest.entries@[i].size
        &&& forall|i: int| 0 <= i < n && #[trigger] self.verified@[i] ==> self.offsets@[i] == self.manifest.entries@[i].size
        &&& self.state == TransferState::Completed ==> all_true(self.verified@)
    }

    /// The bytes confirmed so far, over all files.
    pub open spec fn confirmed_bytes(&self) -> int {
        sum_u64(self.offsets@)
    }

    /// A chunk `seq` of `len` bytes at `offset` of file `file` whose tag verified is taken.
    pub open spec fn chunk_accepted(&self, file: usize, offset: u64, len: u64, seq: u64, tag_ok: bool) -> bool {
        &&& self.state == TransferState::Streaming
        &&& file < self.offsets@.len()
        &&& !self.verified@[file as int]
        &&& offset == self.offsets@[file as int]
        &&& offset + len <= self.manifest.entries@[file as int].size
        &&& seq == self.next_seq
        &&& seq < u64::MAX
        &&& tag_ok
    }

    /// A session for `manifest` under `fp`. Where `saved` belongs to this fingerprint and
    /// manifest, it picks up at the saved offsets; else every file starts at zero. An empty
    /// manifest is complete at once.
    pub fn start(manifest: Manifest, fp: u64, saved: Option<Progress>) -> (r: Receiver)
        requires
            manifest.wf(),
        ensures
            r.wf(),
            r.manifest == manifest,
            r.fingerprint == fp,
            r.next_seq == 0,
            r.verified@ == Seq::new(manifest.entries@.len(), |i: int| false),
            match saved {
                Some(p) => progress_matches(p, fp, manifest) ==> r.offsets@ == p.offsets@,
                None => true,
            },
            !(saved matches Some(p) && progress_matches(p, fp, manifest)) ==> r.offsets@ == Seq::new(manifest.entries@.len(), |i: int| 0u64),
            r.state == (if manifest.entries@.len() == 0 { TransferState::Completed } else { TransferState::Streaming }),
    {
        let n = manifest.entries.len();
        let mut zeros: Vec<u64> = Vec::new();
        let mut verified: Vec<bool> = Vec::new();
        let mut i: usize = 0;
        while i < n
            invariant
                n == manifest.entries@.len(),
                0 <= i <= n,
                zeros@ == Seq::new(i as nat, |k: int| 0u64),
                verified@ == Seq::new(i as nat, |k: int| false),
            decreases n - i,
        {
            zeros.push(0);
            verified.push(false);
            i = i + 1;
            assert(zeros@ =~= Seq::new(i as nat, |k: int| 0u64));
            assert(verified@ =~= Seq::new(i as nat, |k: int| false));
        }
        let offsets = match saved {
            Some(p) => if check_progress(&p, fp, &manifest) {
                p.offsets
            } else {
                zeros
            },
            None => zeros,
        };
        let state = if n == 0 { TransferState::Completed } else { TransferState::Streaming };
        Receiver { manifest, fingerprint: fp, offsets, verified, next_seq: 0, state }
    }

    /// The offsets from which the sender is asked to stream each file.
    pub fn resume_offsets(&self) -> (r: Vec<u64>)
        ensures
            r@ == self.offsets@,
    {
        let mut r: Vec<u64> = Vec::new();
        let mut i: usize = 0;
        while i < self.offsets.len()
            invariant
                0 <= i <= self.offsets@.len(),
                r@ == self.offsets@.subrange(0, i as int),
            decreases self.offsets@.len() - i,
        {
            r.push(self.offsets[i]);
            i = i + 1;
            assert(r@ =~= self.offsets@.subrange(0, i as int));
        }
        assert(r@ =~= self.offsets@);
        r
    }

    /// Takes chunk `seq` of `len` bytes at `offset` of file `file`, whose tag did or did not
    /// verify. Only the next chunk in order, at the file's confirmed offset, within the file, is
    /// taken; it advances the offset by `len`. Anything else, a replay or a chunk before the
    /// confirmed offset included, is refused and changes nothing: a byte already confirmed is
    /// never written again.
    pub fn accept_chunk(&mut self, file: usize, offset: u64, len: u64, seq: u64, tag_ok: bool) -> (r: Result<(), SessionError>)
        requires
            old(self).wf(),
        ensures
            final(self).wf(),
            old(self).chunk_accepted(file, offset, len, seq, tag_ok) ==> {
                &&& r is Ok
                &&& final(self).offsets@ == old(self).offsets@.update(file as int, (offset + len) as u64)
                &&& final(self).next_seq == seq + 1
                &&& final(self).manifest == old(self).manifest
                &&& final(self).fingerprint == old(self).fingerprint
                &&& final(self).verified == old(self).verified
                &&& final(self).state == old(self).state
            },
            !old(self).chunk_accepted(file, offset, len, seq, tag_ok) ==> {
                &&& *final(self) == *old(self)
                &&& old(self).state == TransferState::Streaming
                    ==> r == Err::<(), SessionError>(SessionError::IntegrityFailure { file, offset })
                &&& old(self).state != TransferState::Streaming
                    ==> r == Err::<(), SessionError>(SessionError::TransportError)
            },
    {
        if self.state != TransferState::Streaming {
            return Err(SessionError::TransportError);
        }
        if file >= self.offsets.len() || self.verified[file] || offset != self.offsets[file]
            || len > self.manifest.entries[file].size - offset || seq != self.next_seq
            || seq == u64::MAX || !tag_ok {
            return Err(SessionError::IntegrityFailure { file, offset });
        }
        self.offsets.set(file, offset + len);
        self.next_seq = seq + 1;
        Ok(())
    }

    /// Checks file `file`, fully received, against the manifest's checksum. A match marks it
    /// verified, and the session `Completed` once every file is; a mismatch discards the file's
    /// bytes, so it is streamed again from zero. A file not fully received, or already
    /// verified, is refused and nothing changes.
    pub fn finish_file(&mut self, file: usize, checksum: u64) -> (r: Result<(), SessionError>)
        requires
            old(self).wf(),
        ensures
            final(self).wf(),
            final(self).manifest == old(self).manifest,
            final(self).fingerprint == old(self).fingerprint,
            final(self).next_seq == old(self).next_seq,
            old(self).state != TransferState::Streaming ==> r == Err::<(), SessionError>(SessionError::TransportError)
                && *final(self) == *old(self),
            old(self).state == TransferState::Streaming && (file >= old(self).offsets@.len()
                || old(self).verified@[file as int]
                || old(self).offsets@[file as int] != old(self).manifest.entries@[file as int].size)
                ==> r == Err::<(), SessionError>(SessionError::IntegrityFailure { file, offset: 0 })
                    && *final(self) == *old(self),
            old(self).state == TransferState::Streaming && file < old(self).offsets@.len()
                && !old(self).verified@[file as int]
                && old(self).offsets@[file as int] == old(self).manifest.entries@[file as int].size ==> {
                if checksum == old(self).manifest.entries@[file as int].checksum {
                    &&& r is Ok
                    &&& final(self).offsets == old(self).offsets
                    &&& final(self).verified@ == old(self).verified@.update(file as int, true)
                    &&& final(self).state == (if all_true(final(self).verified@) {
                        TransferState::Completed
                    } else {
                        TransferState::Streaming
                    })
                } else {
                    &&& r == Err::<(), SessionError>(SessionError::IntegrityFailure { file, offset: 0 })
                    &&& final(self).offsets@ == old(self).offsets@.update(file as int, 0u64)
                    &&& final(self).verified == old(self).verified
                    &&& final(self).state == TransferState::Streaming
                }
            },
    {
        if self.state != TransferState::Streaming {
            return Err(SessionError::TransportError);
        }
        if file >= self.offsets.len() || self.verified[file] || self.offsets[file] != self.manifest.entries[file].size {
            return Err(SessionError::IntegrityFailure { file, offset: 0 });
        }
        if checksum != self.manifest.entries[file].checksum {
            self.offsets.set(file, 0);
            return Err(SessionError::IntegrityFailure { file, offset: 0 });
        }
        self.verified.set(file, true);
        if all_set(&self.verified) {
            self.state = TransferState::Completed;
        }
        Ok(())
    }

    /// Ends a session that has not completed with `error` (a dropped link, a cancellation);
    /// the confirmed offsets stay, for a later resume.
    pub fn fail(&mut self, error: SessionError)
        requires
            old(self).wf(),
        ensures
            final(self).wf(),
            old(self).state == TransferState::Completed ==> *final(self) == *old(self),
            old(self).state != TransferState::Completed ==> *final(self) == (Receiver {
                state: TransferState::Failed { error },
                ..*old(self)
            }),
    {
        if self.state != TransferState::Completed {
            self.state = TransferState::Failed { error };
        }
    }

    /// What is to be kept on disk for this session: nothing once it completed (the record is
    /// deleted), else its offsets under the (fingerprint, manifest checksum) pair.
    pub fn progress(&self) -> (r: Option<Progress>)
        ensures
            self.state == TransferState::Completed ==> r is None,
            self.state != TransferState::Completed ==> (r matches Some(p) && p.fingerprint == self.fingerprint
                && p.manifest_checksum == self.manifest.checksum && p.offsets@ == self.offsets@),
    {
        if self.state == TransferState::Completed {
            None
        } else {
            Some(Progress {
                fingerprint: self.fingerprint,
                manifest_checksum: self.manifest.checksum,
                offsets: self.resume_offsets(),
            })
        }
    }
}

/// Once a session completes, the bytes confirmed over all files equal the manifest's total.
pub proof fn lemma_completed_total(r: Receiver)
    requires
        r.wf(),
        r.state == TransferState::Completed,
    ensures
        r.confirmed_bytes() == r.manifest.total,
{
    assert forall|i: int| 0 <= i < r.manifest.entries@.len() implies r.offsets@[i] == #[trigger] r.manifest.entries@[i].size by {
        assert(r.verified@[i]);
    }
    lemma_sums_agree(r.offsets@, r.manifest.entries@);
}

/// Resuming from a saved record at offset `k` of a file asks for that file from `k` on, and
/// no chunk that starts before `k` is taken.
pub proof fn lemma_resume_skips_confirmed(r: Receiver, file: usize, offset: u64, len: u64, seq: u64, tag_ok: bool)
    requires
        r.wf(),
        file < r.offsets@.len(),
        offset < r.offsets@[file as int],
    ensures
        !r.chunk_accepted(file, offset, len, seq, tag_ok),
{
}

} // verus!
