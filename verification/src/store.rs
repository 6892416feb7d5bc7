use vstd::prelude::*;
use crate::errors::Error;
use crate::filter::{Filter, matching_idx, matches_payload};
use crate::point::Point;
use crate::str_eq;

verus! {

/// What a `create` call did: created the collection, or found it already
/// there and left the store untouched.
#[derive(Clone, Copy, Debug, PartialEq, Eq, Structural)]
pub enum CreateOutcome {
    Created,
    AlreadyExists,
}

/// One named collection: a fixed vector dimension (the distance metric is
/// always cosine) and the points it holds, keyed by their ids.
pub struct CollectionModel {
    pub name: String,
    pub dimension: u64,
    pub points: Vec<Point>,
}

/// No two points share an id.
pub open spec fn unique_ids(pts: Seq<Point>) -> bool {
    forall|i: int, j: int| 0 <= i < j < pts.len() ==> pts[i].id@ != pts[j].id@
}

/// The first index holding a point with the given id, if any.
pub open spec fn find_point(pts: Seq<Point>, id: Seq<char>) -> Option<int>
    decreases pts.len(),
{
    if pts.len() == 0 {
        None
    } else if pts[0].id@ == id {
        Some(0int)
    } else {
        match find_point(pts.drop_first(), id) {
            Some(i) => Some(i + 1),
            None => None,
        }
    }
}

/// What `find_point` returns: the first index whose point carries the id.
pub proof fn lemma_find_point_props(pts: Seq<Point>, id: Seq<char>)
    ensures
        match find_point(pts, id) {
            Some(i) => 0 <= i < pts.len() && pts[i].id@ == id && forall|j: int|
                0 <= j < i ==> pts[j].id@ != id,
            None => forall|j: int| 0 <= j < pts.len() ==> pts[j].id@ != id,
        },
    decreases pts.len(),
{
    if pts.len() > 0 && pts[0].id@ != id {
        let rest = pts.drop_first();
        lemma_find_point_props(rest, id);
        match find_point(rest, id) {
            Some(i) => {
                assert(rest[i] == pts[i + 1]);
                assert forall|j: int| 0 <= j < i + 1 implies pts[j].id@ != id by {
                    if j > 0 {
                        assert(rest[j - 1] == pts[j]);
                    }
                }
            },
            None => {
                assert forall|j: int| 0 <= j < pts.len() implies pts[j].id@ != id by {
                    if j > 0 {
                        assert(rest[j - 1] == pts[j]);
                    }
                }
            },
        }
    }
}

/// Inserting one point: it replaces the point that already carries its id,
/// or is appended when the id is new.
pub open spec fn upsert_one(pts: Seq<Point>, p: Point) -> Seq<Point> {
    match find_point(pts, p.id@) {
        Some(i) => pts.update(i, p),
        None => pts.push(p),
    }
}

/// Inserting a batch, in order: later points override earlier ones with
/// the same id.
pub open spec fn upsert_points(pts: Seq<Point>, incoming: Seq<Point>) -> Seq<Point>
    decreases incoming.len(),
{
    if incoming.len() == 0 {
        pts
    } else {
        upsert_one(upsert_points(pts, incoming.drop_last()), incoming.last())
    }
}

/// `p` sits at exactly one place in `pts`: it is present, and every point
/// carrying its id is `p` at that same place.
pub open spec fn sole_point_with_id(pts: Seq<Point>, p: Point) -> bool {
    exists|k: int|
        0 <= k < pts.len() && pts[k] == p && (forall|j: int|
            0 <= j < pts.len() && pts[j].id@ == p.id@ ==> j == k)
}

/// After inserting `p`, the store holds `p` under its id, exactly once,
/// and id uniqueness is preserved.
pub proof fn lemma_upsert_one_sole(pts: Seq<Point>, p: Point)
    requires
        unique_ids(pts),
    ensures
        sole_point_with_id(upsert_one(pts, p), p),
        unique_ids(upsert_one(pts, p)),
{
    lemma_find_point_props(pts, p.id@);
    let post = upsert_one(pts, p);
    match find_point(pts, p.id@) {
        Some(i) => {
            assert(post[i] == p);
            assert forall|j: int| 0 <= j < post.len() && post[j].id@ == p.id@ implies j == i by {
                if j != i {
                    assert(post[j] == pts[j]);
                    assert(pts[i].id@ == p.id@);
                }
            }
        },
        None => {
            let k = pts.len() as int;
            assert(post[k] == p);
            assert forall|j: int| 0 <= j < post.len() && post[j].id@ == p.id@ implies j == k by {
                if j < k {
                    assert(post[j] == pts[j]);
                }
            }
        },
    }
}

/// The store model: the collections that exist, in creation order. The
/// real store lives remotely; this model fixes what the lifecycle and
/// ingestion operations mean, and what each reply says about it.
pub struct StoreModel {
    pub collections: Vec<CollectionModel>,
}

/// Whether a collection with this name exists.
pub open spec fn has_collection(s: StoreModel, name: Seq<char>) -> bool {
    exists|i: int| 0 <= i < s.collections@.len() && (#[trigger] s.collections@[i]).name@ == name
}

/// What `create` leaves behind: an existing name is a warned no-op; an
/// absent one appends a fresh, empty collection of the given dimension.
pub open spec fn create_post(
    pre: StoreModel,
    post: StoreModel,
    name: Seq<char>,
    dimension: u64,
    o: CreateOutcome,
) -> bool {
    if has_collection(pre, name) {
        o == CreateOutcome::AlreadyExists && post.collections@ == pre.collections@
    } else {
        &&& o == CreateOutcome::Created
        &&& post.collections@.len() == pre.collections@.len() + 1
        &&& forall|j: int|
            0 <= j < pre.collections@.len() ==> post.collections@[j] == pre.collections@[j]
        &&& post.collections@.last().name@ == name
        &&& post.collections@.last().dimension == dimension
        &&& post.collections@.last().points@.len() == 0
    }
}

/// What `upsert` leaves behind: on an existing collection the batch is
/// folded in by id and the call succeeds; an absent name is `NotFound` and
/// the store is untouched.
pub open spec fn upsert_post(
    pre: StoreModel,
    post: StoreModel,
    name: Seq<char>,
    incoming: Seq<Point>,
    r: Result<(), Error>,
) -> bool {
    if has_collection(pre, name) {
        &&& r == Ok::<(), Error>(())
        &&& exists|ci: int|
            {
                &&& 0 <= ci < pre.collections@.len()
                &&& (#[trigger] pre.collections@[ci]).name@ == name
                &&& post.collections@.len() == pre.collections@.len()
                &&& (forall|j: int|
                    0 <= j < pre.collections@.len() && j != ci ==> post.collections@[j]
                        == pre.collections@[j])
                &&& post.collections@[ci].name == pre.collections@[ci].name
                &&& post.collections@[ci].dimension == pre.collections@[ci].dimension
                &&& post.collections@[ci].points@ == upsert_points(
                    pre.collections@[ci].points@,
                    incoming,
                )
            }
    } else {
        r == Err::<(), Error>(Error::NotFound) && post.collections@ == pre.collections@
    }
}

impl StoreModel {
    /// Collection names are unique and every collection's point ids are
    /// unique.
    pub open spec fn wf(self) -> bool {
        &&& forall|i: int, j: int|
            0 <= i < j < self.collections@.len() ==> (#[trigger] self.collections@[i]).name@ != (
            #[trigger] self.collections@[j]).name@
        &&& forall|i: int|
            0 <= i < self.collections@.len() ==> unique_ids(
                (#[trigger] self.collections@[i]).points@,
            )
    }

    /// An empty store.
    pub fn new() -> (s: StoreModel)
        ensures
            s.wf(),
            s.collections@.len() == 0,
    {
        StoreModel { collections: Vec::new() }
    }

    /// Finds the index of the named collection.
    fn find_collection(&self, name: &str) -> (r: Option<usize>)
        ensures
            match r {
                Some(i) => i < self.collections@.len() && self.collections@[i as int].name@
                    == name@,
                None => !has_collection(*self, name@),
            },
    {
        let n = self.collections.len();
        let mut i: usize = 0;
        while i < n
            invariant
                n == self.collections@.len(),
                i <= n,
                forall|j: int| 0 <= j < i ==> (#[trigger] self.collections@[j]).name@ != name@,
            decreases n - i,
        {
            if str_eq(self.collections[i].name.as_str(), name) {
                return Some(i);
            }
            i = i + 1;
        }
        None
    }

    /// Creates the named collection with the given vector dimension and
    /// cosine distance, unless it already exists; then the call is an
    /// `AlreadyExists` no-op, not an error.
    pub fn create_collection(&mut self, collection_name: &str, dimension: u64) -> (o:
        CreateOutcome)
        requires
            old(self).wf(),
        ensures
            final(self).wf(),
            create_post(*old(self), *final(self), collection_name@, dimension, o),
            has_collection(*final(self), collection_name@),
    {
        match self.find_collection(collection_name) {
            Some(i) => {
                proof {
                    assert(self.collections@[i as int].name@ == collection_name@);
                }
                CreateOutcome::AlreadyExists
            },
            None => {
                let col = CollectionModel {
                    name: String::from_str(collection_name),
                    dimension,
                    points: Vec::new(),
                };
                self.collections.push(col);
                proof {
                    let n = old(self).collections@.len() as int;
                    assert(self.collections@[n].name@ == collection_name@);
                }
                CreateOutcome::Created
            },
        }
    }

    /// Removes the named collection, reporting whether anything was
    /// deleted; an absent name reports failure rather than erroring.
    pub fn delete_collection(&mut self, collection_to_delete: &str) -> (r: bool)
        requires
            old(self).wf(),
        ensures
            final(self).wf(),
            r == has_collection(*old(self), collection_to_delete@),
            !has_collection(*final(self), collection_to_delete@),
            r ==> exists|ci: int|
                0 <= ci < old(self).collections@.len() && (#[trigger] old(
                    self,
                ).collections@[ci]).name@ == collection_to_delete@ && final(self).collections@
                    == old(self).collections@.remove(ci),
            !r ==> final(self).collections@ == old(self).collections@,
    {
        match self.find_collection(collection_to_delete) {
            Some(i) => {
                self.collections.remove(i);
                proof {
                    assert forall|j: int|
                        0 <= j < self.collections@.len() implies (
                    #[trigger] self.collections@[j]).name@ != collection_to_delete@ by {
                        if j < i as int {
                            assert(self.collections@[j] == old(self).collections@[j]);
                        } else {
                            assert(self.collections@[j] == old(self).collections@[j + 1]);
                        }
                    }
                }
                true
            },
            None => false,
        }
    }

    /// The names of the existing collections, in creation order.
    pub fn list_available_collections(&self) -> (names: Vec<String>)
        ensures
            names@.len() == self.collections@.len(),
            forall|i: int|
                0 <= i < names@.len() ==> (#[trigger] names@[i])@ == self.collections@[i].name@,
    {
        let n = self.collections.len();
        let mut names: Vec<String> = Vec::new();
        let mut i: usize = 0;
        while i < n
            invariant
                n == self.collections@.len(),
                i <= n,
                names@.len() == i,
                forall|j: int|
                    0 <= j < i ==> (#[trigger] names@[j])@ == self.collections@[j].name@,
            decreases n - i,
        {
            names.push(self.collections[i].name.clone());
            i = i + 1;
        }
        names
    }

    /// The configured vector dimension of the named collection, if it
    /// exists.
    pub fn collection_dimension(&self, name: &str) -> (r: Option<u64>)
        requires
            self.wf(),
        ensures
            match r {
                Some(d) => exists|ci: int|
                    0 <= ci < self.collections@.len() && (#[trigger] self.collections@[ci]).name@
                        == name@ && self.collections@[ci].dimension == d,
                None => !has_collection(*self, name@),
            },
    {
        match self.find_collection(name) {
            Some(i) => Some(self.collections[i].dimension),
            None => None,
        }
    }

    /// Folds a batch of points into the named collection, in order, with
    /// insert-or-replace-by-id semantics; the whole store is otherwise
    /// untouched. An absent collection is `NotFound`.
    pub fn add_points(&mut self, collection_name: &str, points: Vec<Point>) -> (r: Result<
        (),
        Error,
    >)
        requires
            old(self).wf(),
        ensures
            final(self).wf(),
            upsert_post(*old(self), *final(self), collection_name@, points@, r),
    {
        let ci = match self.find_collection(collection_name) {
            Some(i) => i,
            None => {
                return Err(Error::NotFound);
            },
        };
        let ghost orig = self.collections@[ci as int].points@;
        let ghost all = points@;
        let mut col = self.collections.remove(ci);
        let mut incoming = points;
        let total = incoming.len();
        proof {
            assert(all.len() == total);
        }
        let mut k: usize = 0;
        while incoming.len() > 0
            invariant
                k + incoming@.len() == all.len(),
                all.len() <= usize::MAX,
                incoming@ == all.skip(k as int),
                unique_ids(col.points@),
                col.points@ == upsert_points(orig, all.take(k as int)),
                col.name == old(self).collections@[ci as int].name,
                col.dimension == old(self).collections@[ci as int].dimension,
                orig == old(self).collections@[ci as int].points@,
                ci < old(self).collections@.len(),
                old(self).wf(),
            decreases incoming@.len(),
        {
            let ghost pre_pts = col.points@;
            let p = incoming.remove(0);
            proof {
                assert(p == all[k as int]);
                assert(incoming@ =~= all.skip(k + 1));
            }
            let slot = find_point_index(&col.points, p.id.as_str());
            proof {
                lemma_find_point_props(pre_pts, p.id@);
                lemma_upsert_one_sole(pre_pts, p);
            }
            match slot {
                Some(j) => {
                    col.points.set(j, p);
                },
                None => {
                    col.points.push(p);
                },
            }
            proof {
                assert(all.take(k + 1).drop_last() =~= all.take(k as int));
                assert(all.take(k + 1).last() == all[k as int]);
                assert(col.points@ == upsert_one(pre_pts, all[k as int]));
            }
            k = k + 1;
        }
        proof {
            assert(all.take(all.len() as int) =~= all);
        }
        self.collections.insert(ci, col);
        proof {
            assert(final(self).collections@ =~= old(self).collections@.update(
                ci as int,
                final(self).collections@[ci as int],
            ));
        }
        Ok(())
    }

    /// The indices of the points of the named collection whose payloads
    /// pass the filter, in order, cut off after `limit` hits. Ranking by
    /// similarity is the remote store's; the model fixes which points are
    /// admissible and how many may return.
    pub fn search_collection(&self, collection_name: &str, search_filter: &Option<Filter>,
        search_limit: usize) -> (r: Result<Vec<usize>, Error>)
        requires
            self.wf(),
        ensures
            match r {
                Ok(hits) => exists|ci: int|
                    {
                        &&& 0 <= ci < self.collections@.len()
                        &&& (#[trigger] self.collections@[ci]).name@ == collection_name@
                        &&& {
                            let all = matching_idx(
                                self.collections@[ci].points@.map_values(|p: Point| p.payload),
                                *search_filter,
                            );
                            hits@.map_values(|u: usize| u as int) == if all.len()
                                <= search_limit {
                                all
                            } else {
                                all.take(search_limit as int)
                            }
                        }
                    },
                Err(e) => e == Error::NotFound && !has_collection(*self, collection_name@),
            },
    {
        let ci = match self.find_collection(collection_name) {
            Some(i) => i,
            None => {
                return Err(Error::NotFound);
            },
        };
        let pts = &self.collections[ci].points;
        let ghost pays = pts@.map_values(|p: Point| p.payload);
        let n = pts.len();
        let mut hits: Vec<usize> = Vec::new();
        let mut i: usize = 0;
        while i < n
            invariant
                n == pts@.len(),
                pays == pts@.map_values(|p: Point| p.payload),
                i <= n,
                hits@.map_values(|u: usize| u as int) == matching_idx(pays.take(i as int), *search_filter),
            decreases n - i,
        {
            let keep = match search_filter {
                Some(fil) => matches_payload(fil, &pts[i].payload),
                None => true,
            };
            proof {
                assert(pays.take(i + 1).drop_last() =~= pays.take(i as int));
                assert(pays.take(i + 1).last() == pays[i as int]);
                assert(pays[i as int] == pts@[i as int].payload);
            }
            if keep {
                hits.push(i);
                proof {
                    assert(hits@.map_values(|u: usize| u as int) =~= matching_idx(
                        pays.take(i + 1),
                        *search_filter,
                    ));
                }
            }
            i = i + 1;
        }
        proof {
            assert(pays.take(n as int) =~= pays);
        }
        let full_len = hits.len();
        hits.truncate(search_limit);
        proof {
            if search_limit < full_len {
                assert(hits@.map_values(|u: usize| u as int) =~= matching_idx(
                    pays,
                    *search_filter,
                ).take(search_limit as int));
            }
        }
        Ok(hits)
    }
}

/// The address used to reach the vector store: the caller's, or a
/// well-known local default when none is given.
pub fn store_url(vectordb_url: Option<&str>) -> (r: String)
    ensures
        match vectordb_url {
            Some(u) => r@ == u@,
            None => r@ == "http://localhost:6334"@,
        },
{
    match vectordb_url {
        Some(u) => String::from_str(u),
        None => String::from_str("http://localhost:6334"),
    }
}

/// Splits a batch of points into the chunks one upsert round trip sends:
/// every chunk is non-empty and at most `batch_size` long, and chaining
/// the chunks in order gives back exactly the input, in order.
pub fn batches_of(points: Vec<Point>, batch_size: usize) -> (b: Vec<Vec<Point>>)
    requires
        batch_size >= 1,
    ensures
        b@.map_values(|v: Vec<Point>| v@).flatten() == points@,
        forall|i: int| 0 <= i < b@.len() ==> 1 <= (#[trigger] b@[i])@.len() <= batch_size,
        forall|i: int| 0 <= i < b@.len() - 1 ==> (#[trigger] b@[i])@.len() == batch_size,
{
    let ghost all = points@;
    let mut rest = points;
    let total = rest.len();
    proof {
        assert(all.len() == total);
    }
    let mut b: Vec<Vec<Point>> = Vec::new();
    let mut k: usize = 0;
    while rest.len() > 0
        invariant
            k + rest@.len() == all.len(),
            all.len() <= usize::MAX,
            rest@ == all.skip(k as int),
            b@.map_values(|v: Vec<Point>| v@).flatten_alt() == all.take(k as int),
            forall|i: int| 0 <= i < b@.len() ==> 1 <= (#[trigger] b@[i])@.len() <= batch_size,
            forall|i: int| 0 <= i < b@.len() - 1 ==> (#[trigger] b@[i])@.len() == batch_size,
            rest@.len() > 0 ==> forall|i: int|
                0 <= i < b@.len() ==> (#[trigger] b@[i])@.len() == batch_size,
            batch_size >= 1,
        decreases rest@.len(),
    {
        let ghost chunk_start = k;
        let mut chunk: Vec<Point> = Vec::new();
        while rest.len() > 0 && chunk.len() < batch_size
            invariant
                k + rest@.len() == all.len(),
                all.len() <= usize::MAX,
                rest@ == all.skip(k as int),
                chunk_start <= k,
                chunk@ == all.subrange(chunk_start as int, k as int),
                chunk@.len() == k - chunk_start,
                chunk@.len() <= batch_size,
            decreases rest@.len(),
        {
            let p = rest.remove(0);
            proof {
                assert(p == all[k as int]);
                assert(rest@ =~= all.skip(k + 1));
            }
            chunk.push(p);
            proof {
                assert(chunk@ =~= all.subrange(chunk_start as int, k + 1));
            }
            k = k + 1;
        }
        let ghost pre = b@.map_values(|v: Vec<Point>| v@);
        b.push(chunk);
        proof {
            assert(b@.map_values(|v: Vec<Point>| v@) =~= pre.push(chunk@));
            assert(pre.push(chunk@).drop_last() =~= pre);
            assert(b@.map_values(|v: Vec<Point>| v@).flatten_alt() =~= all.take(k as int));
        }
    }
    proof {
        assert(all.take(all.len() as int) =~= all);
        let m = b@.map_values(|v: Vec<Point>| v@);
        m.lemma_flatten_and_flatten_alt_are_equivalent();
    }
    b
}

/// Finds the first point carrying the given id.
fn find_point_index(pts: &Vec<Point>, id: &str) -> (r: Option<usize>)
    ensures
        match r {
            Some(i) => i < pts@.len() && find_point(pts@, id@) == Some(i as int),
            None => find_point(pts@, id@) is None,
        },
{
    let n = pts.len();
    let mut i: usize = 0;
    while i < n
        invariant
            n == pts@.len(),
            i <= n,
            forall|j: int| 0 <= j < i ==> pts@[j].id@ != id@,
        decreases n - i,
    {
        if str_eq(pts[i].id.as_str(), id) {
            proof {
                lemma_find_point_props(pts@, id@);
                match find_point(pts@, id@) {
                    Some(i0) => {
                        if i0 < i as int {
                            assert(pts@[i0].id@ == id@);
                        } else if (i as int) < i0 {
                            assert(pts@[i as int].id@ != id@);
                        }
                    },
                    None => {
                        assert(pts@[i as int].id@ != id@);
                    },
                }
            }
            return Some(i);
        }
        i = i + 1;
    }
    proof {
        lemma_find_point_props(pts@, id@);
    }
    None
}

/// Upserting a single point is one insert-or-replace step.
proof fn lemma_upsert_single(pts: Seq<Point>, p: Point)
    ensures
        upsert_points(pts, seq![p]) == upsert_one(pts, p),
{
    reveal_with_fuel(upsert_points, 2);
    assert(seq![p].drop_last() =~= Seq::<Point>::empty());
    assert(seq![p].last() == p);
}

/// Creating a collection twice in sequence never errors: the second call
/// reports `AlreadyExists` and performs no mutation at all, whatever
/// dimensions the two calls asked for.
pub proof fn lemma_create_idempotent(
    s0: StoreModel,
    s1: StoreModel,
    s2: StoreModel,
    name: Seq<char>,
    d1: u64,
    d2: u64,
    o1: CreateOutcome,
    o2: CreateOutcome,
)
    requires
        create_post(s0, s1, name, d1, o1),
        create_post(s1, s2, name, d2, o2),
    ensures
        o2 == CreateOutcome::AlreadyExists,
        s2.collections@ == s1.collections@,
{
    if has_collection(s0, name) {
        let i = choose|i: int|
            0 <= i < s0.collections@.len() && (#[trigger] s0.collections@[i]).name@ == name;
        assert(s1.collections@[i].name@ == name);
    } else {
        let n = s1.collections@.len() - 1;
        assert(s1.collections@[n].name@ == name);
    }
}

/// Re-ingesting a key is an idempotent replace: after upserting a point
/// and then another with the same id, the collection holds exactly one
/// point under that id, and it is the second one — its payload reflects
/// the latest text.
pub proof fn lemma_reingestion_idempotent(
    s0: StoreModel,
    s1: StoreModel,
    s2: StoreModel,
    name: Seq<char>,
    p1: Point,
    p2: Point,
    r1: Result<(), Error>,
    r2: Result<(), Error>,
)
    requires
        s0.wf(),
        s1.wf(),
        p1.id@ == p2.id@,
        has_collection(s0, name),
        upsert_post(s0, s1, name, seq![p1], r1),
        upsert_post(s1, s2, name, seq![p2], r2),
    ensures
        r1 == Ok::<(), Error>(()),
        r2 == Ok::<(), Error>(()),
        exists|ci: int|
            0 <= ci < s2.collections@.len() && (#[trigger] s2.collections@[ci]).name@ == name
                && sole_point_with_id(s2.collections@[ci].points@, p2),
{
    let ci0 = choose|ci: int|
        {
            &&& 0 <= ci < s0.collections@.len()
            &&& (#[trigger] s0.collections@[ci]).name@ == name
            &&& s1.collections@.len() == s0.collections@.len()
            &&& (forall|j: int|
                0 <= j < s0.collections@.len() && j != ci ==> s1.collections@[j]
                    == s0.collections@[j])
            &&& s1.collections@[ci].name == s0.collections@[ci].name
            &&& s1.collections@[ci].dimension == s0.collections@[ci].dimension
            &&& s1.collections@[ci].points@ == upsert_points(s0.collections@[ci].points@, seq![p1])
        };
    assert(has_collection(s1, name)) by {
        assert(s1.collections@[ci0].name@ == name);
    }
    let ci1 = choose|ci: int|
        {
            &&& 0 <= ci < s1.collections@.len()
            &&& (#[trigger] s1.collections@[ci]).name@ == name
            &&& s2.collections@.len() == s1.collections@.len()
            &&& (forall|j: int|
                0 <= j < s1.collections@.len() && j != ci ==> s2.collections@[j]
                    == s1.collections@[j])
            &&& s2.collections@[ci].name == s1.collections@[ci].name
            &&& s2.collections@[ci].dimension == s1.collections@[ci].dimension
            &&& s2.collections@[ci].points@ == upsert_points(s1.collections@[ci].points@, seq![p2])
        };
    assert(ci1 == ci0) by {
        assert(s1.collections@[ci0].name@ == name);
        assert(s1.collections@[ci1].name@ == name);
    }
    let pts0 = s0.collections@[ci0].points@;
    let pts1 = s1.collections@[ci0].points@;
    let pts2 = s2.collections@[ci0].points@;
    lemma_upsert_single(pts0, p1);
    lemma_upsert_single(pts1, p2);
    assert(pts1 == upsert_one(pts0, p1));
    assert(pts2 == upsert_one(pts1, p2));
    lemma_upsert_one_sole(pts0, p1);
    lemma_upsert_one_sole(pts1, p2);
    assert(s2.collections@[ci0].name@ == name);
}

} // verus!
