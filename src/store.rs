use vstd::prelude::*;

use crate::model::{is_new_movie, with_id, AxumQuasarError, Movie, MovieView};

verus! {

/// The values of a list of movies.
pub open spec fn movies_view(ms: Seq<Movie>) -> Seq<MovieView> {
    ms.map_values(|m: Movie| m@)
}

/// The value of an optional movie.
pub open spec fn opt_view(o: Option<Movie>) -> Option<MovieView> {
    match o {
        Some(m) => Some(m@),
        None => None,
    }
}

/// Some stored movie has the identifier `id`.
pub open spec fn has_id(s: Seq<MovieView>, id: i32) -> bool {
    exists|i: int| 0 <= i < s.len() && #[trigger] s[i].id == Some(id)
}

/// No two stored movies share an identifier.
pub open spec fn ids_unique(s: Seq<MovieView>) -> bool {
    forall|i: int, j: int| 0 <= i < j < s.len() ==> s[i].id != s[j].id
}

/// The stored movie with the identifier `id`, if any.
pub open spec fn find_movie(s: Seq<MovieView>, id: i32) -> Option<MovieView> {
    if has_id(s, id) {
        Some(s[choose|i: int| 0 <= i < s.len() && #[trigger] s[i].id == Some(id)])
    } else {
        None
    }
}

/// Every movie of the list may be inserted as a new row.
pub open spec fn all_new(ms: Seq<MovieView>) -> bool {
    forall|k: int| 0 <= k < ms.len() ==> is_new_movie(#[trigger] ms[k])
}

/// The stored rows: every movie has an identifier in `1..next`, identifiers
/// grow along the list (so none repeats), and every title is non-empty.
pub open spec fn store_wf(s: Seq<MovieView>, next: int) -> bool {
    &&& 1 <= next <= i32::MAX
    &&& forall|i: int|
        0 <= i < s.len() ==> {
            &&& (#[trigger] s[i]).id is Some
            &&& 1 <= s[i].id->0 < next
            &&& s[i].title.len() > 0
        }
    &&& forall|i: int, j: int| #![trigger s[i], s[j]] 0 <= i < j < s.len() ==> s[i].id->0 < s[j].id->0
}

/// What a successful insert of `m` does: the store gains `r`, which is `m`
/// with a fresh positive identifier.
pub open spec fn insert_post(
    before: Seq<MovieView>,
    m: MovieView,
    r: MovieView,
    after: Seq<MovieView>,
) -> bool {
    &&& r.id is Some
    &&& r.id->0 > 0
    &&& !has_id(before, r.id->0)
    &&& r == with_id(m, r.id)
    &&& after == before.push(r)
}

/// What a successful import of `ms` does: the store gains one row per movie,
/// in order, each the movie with a fresh positive identifier.
pub open spec fn import_post(before: Seq<MovieView>, ms: Seq<MovieView>, after: Seq<MovieView>) -> bool {
    &&& after.len() == before.len() + ms.len()
    &&& after.take(before.len() as int) == before
    &&& forall|k: int|
        0 <= k < ms.len() ==> {
            let a = #[trigger] after[before.len() + k];
            &&& a.id is Some
            &&& a.id->0 > 0
            &&& !has_id(before, a.id->0)
            &&& a == with_id(ms[k], a.id)
        }
}

/// What an update with `m` does: the row with `m`'s identifier is replaced by
/// `m` as a whole (title, year and genres); every other row stays.
pub open spec fn update_post(before: Seq<MovieView>, m: MovieView, after: Seq<MovieView>) -> bool {
    &&& after.len() == before.len()
    &&& forall|k: int|
        0 <= k < before.len() ==> #[trigger] after[k] == if before[k].id == m.id {
            m
        } else {
            before[k]
        }
}

/// An in-memory movie store. Identifiers are handed out in increasing order and
/// never reused, also after the store is emptied.
pub struct MemoryDB {
    movies: Vec<Movie>,
    next_id: i32,
}

impl View for MemoryDB {
    type V = Seq<MovieView>;

    closed spec fn view(&self) -> Seq<MovieView> {
        movies_view(self.movies@)
    }
}

fn storage_error(msg: &str) -> (r: AxumQuasarError)
    ensures
        r is DBError,
{
    AxumQuasarError::DBError(msg.to_owned())
}

/// Whether every movie of the batch may be inserted as a new row.
pub fn batch_is_new(movies: &Vec<Movie>) -> (r: bool)
    ensures
        r == all_new(movies_view(movies@)),
{
    let ghost ms = movies_view(movies@);
    let mut k: usize = 0;
    while k < movies.len()
        invariant
            k <= movies@.len(),
            ms == movies_view(movies@),
            forall|j: int| 0 <= j < k ==> is_new_movie(#[trigger] ms[j]),
        decreases movies@.len() - k,
    {
        if movies[k].id.is_some() || movies[k].title.as_str().is_empty() {
            assert(!is_new_movie(ms[k as int]));
            return false;
        }
        k = k + 1;
    }
    true
}

impl MemoryDB {
    /// The next identifier that the store will hand out.
    pub closed spec fn next_id(&self) -> int {
        self.next_id as int
    }

    /// How many more movies the store can take.
    pub open spec fn ids_left(&self) -> int {
        i32::MAX - self.next_id()
    }

    /// The store's rows are well formed.
    pub open spec fn wf(&self) -> bool {
        store_wf(self@, self.next_id())
    }

    /// An empty store.
    pub fn new() -> (r: MemoryDB)
        ensures
            r.wf(),
            r@ == Seq::<MovieView>::empty(),
            r.ids_left() == i32::MAX - 1,
    {
        let r = MemoryDB { movies: Vec::new(), next_id: 1 };
        assert(r@ =~= Seq::<MovieView>::empty());
        r
    }

    /// Every stored movie, in the order of insertion. This store cannot fail.
    pub fn get_all_movies(&self) -> (r: Result<Vec<Movie>, AxumQuasarError>)
        ensures
            r matches Ok(v) && movies_view(v@) == self@,
    {
        let mut v: Vec<Movie> = Vec::new();
        let mut i: usize = 0;
        while i < self.movies.len()
            invariant
                i <= self.movies@.len(),
                v@.len() == i,
                forall|j: int| 0 <= j < i ==> #[trigger] v@[j]@ == self.movies@[j]@,
            decreases self.movies@.len() - i,
        {
            v.push(self.movies[i].duplicate());
            i = i + 1;
        }
        assert(movies_view(v@) =~= self@);
        Ok(v)
    }

    /// The index of the stored movie with the identifier `id`, if any.
    fn position_of(&self, id: i32) -> (r: Option<usize>)
        requires
            self.wf(),
        ensures
            r matches Some(i) ==> i < self@.len() && self@[i as int].id == Some(id),
            r is None ==> !has_id(self@, id),
    {
        let mut i: usize = 0;
        while i < self.movies.len()
            invariant
                i <= self.movies@.len(),
                forall|j: int| 0 <= j < i ==> (#[trigger] self@[j]).id != Some(id),
            decreases self.movies@.len() - i,
        {
            if self.movies[i].id == Some(id) {
                return Some(i);
            }
            i = i + 1;
        }
        None
    }

    /// The stored movie with the identifier `id`; absence is a value, never an
    /// error.
    pub fn get_movie(&self, id: i32) -> (r: Result<Option<Movie>, AxumQuasarError>)
        requires
            self.wf(),
        ensures
            r matches Ok(o) && opt_view(o) == find_movie(self@, id),
    {
        match self.position_of(id) {
            Some(i) => {
                let m = self.movies[i].duplicate();
                proof {
                    assert(has_id(self@, id));
                    let k = choose|k: int| 0 <= k < self@.len() && #[trigger] self@[k].id == Some(id);
                    if k != i {
                        assert(self@[i as int].id != self@[k].id);
                    }
                }
                Ok(Some(m))
            },
            None => Ok(None),
        }
    }

    /// Adds a new movie and returns it with the identifier that the store gave
    /// it. Fails with a storage error, and leaves the store as it was, when the
    /// movie already carries an identifier, has an empty title, or no
    /// identifier is left.
    pub fn insert_movie(&mut self, movie: Movie) -> (r: Result<Movie, AxumQuasarError>)
        requires
            old(self).wf(),
        ensures
            final(self).wf(),
            r is Ok <==> is_new_movie(movie@) && old(self).ids_left() > 0,
            r matches Ok(m) ==> insert_post(old(self)@, movie@, m@, final(self)@)
                && final(self).ids_left() == old(self).ids_left() - 1,
            r matches Err(e) ==> e is DBError && final(self)@ == old(self)@ && final(self).ids_left()
                == old(self).ids_left(),
    {
        if movie.id.is_some() {
            return Err(storage_error("a new movie must not carry an id"));
        }
        if movie.title.as_str().is_empty() {
            return Err(storage_error("a movie needs a non-empty title"));
        }
        if self.next_id == i32::MAX {
            return Err(storage_error("no movie identifiers are left"));
        }
        let m = Movie { id: Some(self.next_id), ..movie };
        let r = m.duplicate();
        let ghost before = self@;
        self.movies.push(m);
        self.next_id = self.next_id + 1;
        proof {
            assert(self@ =~= before.push(r@));
            assert forall|i: int| 0 <= i < before.len() implies before[i].id != r.id by {
                assert(before[i].id->0 < self.next_id - 1);
            }
        }
        Ok(r)
    }

    /// Replaces the title, year and genres of the stored movie that has
    /// `movie`'s identifier. Fails with `NotFound` when `movie` carries no
    /// identifier or no stored movie has it, and with a storage error when the
    /// title is empty; the store is then unchanged.
    pub fn update_movie(&mut self, movie: Movie) -> (r: Result<(), AxumQuasarError>)
        requires
            old(self).wf(),
        ensures
            final(self).wf(),
            final(self).ids_left() == old(self).ids_left(),
            r is Ok <==> (movie.id matches Some(id) && has_id(old(self)@, id)) && movie.title@.len() > 0,
            (r matches Err(e) && e is NotFound) <==> !(movie.id matches Some(id) && has_id(old(self)@, id)),
            r is Ok ==> update_post(old(self)@, movie@, final(self)@),
            r is Err ==> final(self)@ == old(self)@,
    {
        let id = match movie.id {
            Some(id) => id,
            None => {
                return Err(AxumQuasarError::NotFound);
            },
        };
        let i = match self.position_of(id) {
            Some(i) => i,
            None => {
                return Err(AxumQuasarError::NotFound);
            },
        };
        if movie.title.as_str().is_empty() {
            return Err(storage_error("a movie needs a non-empty title"));
        }
        let ghost before = self@;
        let ghost mv = movie@;
        self.movies.set(i, movie);
        proof {
            assert forall|k: int| 0 <= k < before.len() implies #[trigger] self@[k] == if before[k].id
                == mv.id {
                mv
            } else {
                before[k]
            } by {
                if k != i {
                    assert(before[k].id != before[i as int].id);
                }
            }
        }
        Ok(())
    }

    /// Removes every movie. Identifiers already handed out are not reused.
    pub fn delete_movies(&mut self) -> (r: Result<(), AxumQuasarError>)
        requires
            old(self).wf(),
        ensures
            final(self).wf(),
            r is Ok,
            final(self)@ == Seq::<MovieView>::empty(),
            final(self).ids_left() == old(self).ids_left(),
    {
        self.movies = Vec::new();
        assert(self@ =~= Seq::<MovieView>::empty());
        Ok(())
    }

    /// Adds every movie of the batch as a new row, in order, or none of them:
    /// fails with a storage error, leaving the store as it was, when some movie
    /// of the batch could not be inserted on its own (it carries an id or has an
    /// empty title) or the batch is larger than the identifiers left.
    pub fn import_movies(&mut self, movies: Vec<Movie>) -> (r: Result<(), AxumQuasarError>)
        requires
            old(self).wf(),
        ensures
            final(self).wf(),
            r is Ok <==> all_new(movies_view(movies@)) && movies@.len() <= old(self).ids_left(),
            r is Ok ==> import_post(old(self)@, movies_view(movies@), final(self)@)
                && final(self).ids_left() == old(self).ids_left() - movies@.len(),
            r matches Err(e) ==> e is DBError && final(self)@ == old(self)@ && final(self).ids_left()
                == old(self).ids_left(),
    {
        let ghost ms = movies_view(movies@);
        if !batch_is_new(&movies) {
            return Err(storage_error("every imported movie needs a title and no id"));
        }
        let left: i32 = i32::MAX - self.next_id;
        if movies.len() > left as usize {
            return Err(storage_error("no movie identifiers are left for the whole batch"));
        }
        let ghost before = self@;
        let ghost start = self.next_id as int;
        let mut k: usize = 0;
        while k < movies.len()
            invariant
                k <= movies@.len(),
                ms == movies_view(movies@),
                all_new(ms),
                movies@.len() <= i32::MAX - start,
                store_wf(before, start),
                self.next_id == start + k,
                self.wf(),
                self@.len() == before.len() + k,
                self@.take(before.len() as int) == before,
                forall|j: int|
                    0 <= j < k ==> #[trigger] self@[before.len() + j] == with_id(
                        ms[j],
                        Some((start + j) as i32),
                    ),
            decreases movies@.len() - k,
        {
            let m = Movie { id: Some(self.next_id), ..movies[k].duplicate() };
            let ghost prev = self@;
            self.movies.push(m);
            self.next_id = self.next_id + 1;
            proof {
                assert(self@ =~= prev.push(m@));
                assert(ms[k as int] == movies@[k as int]@);
                assert(self@.take(before.len() as int) =~= prev.take(before.len() as int));
                assert forall|j: int| 0 <= j < k + 1 implies #[trigger] self@[before.len() + j]
                    == with_id(ms[j], Some((start + j) as i32)) by {
                    if j < k {
                        assert(self@[before.len() + j] == prev[before.len() + j]);
                    }
                }
            }
            k = k + 1;
        }
        proof {
            assert forall|j: int| 0 <= j < ms.len() implies ({
                let a = #[trigger] self@[before.len() + j];
                &&& a.id is Some
                &&& a.id->0 > 0
                &&& !has_id(before, a.id->0)
                &&& a == with_id(ms[j], a.id)
            }) by {
                assert forall|i: int| 0 <= i < before.len() implies before[i].id != Some(
                    (start + j) as i32,
                ) by {
                    assert(before[i].id->0 < start);
                }
            }
        }
        Ok(())
    }
}

/// An insert followed by a lookup of the identifier it returned yields the
/// inserted movie, equal to the input but for the identifier.
pub proof fn lemma_insert_then_get(
    before: Seq<MovieView>,
    m: MovieView,
    r: MovieView,
    after: Seq<MovieView>,
)
    requires
        ids_unique(before),
        is_new_movie(m),
        insert_post(before, m, r, after),
    ensures
        find_movie(after, r.id->0) == Some(r),
        with_id(r, None) == m,
{
    let id = r.id->0;
    assert(after[before.len() as int] == r);
    assert(has_id(after, id));
    let k = choose|k: int| 0 <= k < after.len() && #[trigger] after[k].id == Some(id);
    if k < before.len() {
        assert(after[k] == before[k]);
        assert(has_id(before, id));
    }
}

/// An import followed by a listing shows the batch exactly when every movie of
/// it could be inserted and identifiers suffice: then one new entity per input
/// movie, in order, each equal to it but for the identifier; else none of the
/// batch, and the listing is what it was before.
pub proof fn lemma_import_then_get_all(
    before: Seq<MovieView>,
    ids_left: int,
    movies: Seq<MovieView>,
    ok: bool,
    after: Seq<MovieView>,
    listed: Seq<MovieView>,
)
    requires
        ok <==> all_new(movies) && movies.len() <= ids_left,
        ok ==> import_post(before, movies, after),
        !ok ==> after == before,
        listed == after,
    ensures
        ok ==> listed.len() == before.len() + movies.len() && listed.take(before.len() as int)
            == before && forall|k: int|
            0 <= k < movies.len() ==> with_id(#[trigger] listed[before.len() + k], None)
                == movies[k],
        (exists|k: int| 0 <= k < movies.len() && !is_new_movie(#[trigger] movies[k])) ==> listed
            == before,
{
    if ok {
        assert forall|k: int| 0 <= k < movies.len() implies with_id(
            #[trigger] listed[before.len() + k],
            None,
        ) == movies[k] by {
            assert(is_new_movie(movies[k]));
        }
    }
}

/// A listing after deleting every movie is empty.
pub proof fn lemma_delete_then_get_all(after: Seq<MovieView>, listed: Seq<MovieView>)
    requires
        after == Seq::<MovieView>::empty(),
        listed == after,
    ensures
        listed.len() == 0,
{
}

} // verus!
