use vstd::prelude::*;

use crate::aggregate::{aggregate_rows, aggregate_of, genre_set, GenreKey};
use crate::model::{
    is_new_movie, with_id, AxumQuasarError, Genre, Movie, MovieView, MovieWithGenres,
    MovieWithGenresQuery,
};
use crate::store::{all_new, movies_view};

verus! {

/// The names of a list of genres, in order.
pub open spec fn genre_names(gs: Seq<Genre>) -> Seq<Seq<char>> {
    gs.map_values(|g: Genre| g.name@)
}

/// The names that a set of genres holds.
pub open spec fn name_set(gs: Set<GenreKey>) -> Set<Seq<char>> {
    gs.map(|g: GenreKey| g.1)
}

/// The movie list holds exactly the movies that the join rows describe, one
/// per identifier, each with the title and year of its first row and the names
/// of all genres of its rows.
pub open spec fn movies_of_rows(r: Seq<MovieView>, rows: Seq<MovieWithGenresQuery>) -> bool {
    let m = aggregate_of(rows);
    &&& forall|i: int, j: int| 0 <= i < j < r.len() ==> r[i].id != r[j].id
    &&& forall|id: i32| m.contains_key(id) <==> exists|k: int| 0 <= k < r.len() && #[trigger] r[k].id == Some(id)
    &&& forall|k: int|
        0 <= k < r.len() ==> {
            let mv = #[trigger] r[k];
            &&& mv.id is Some
            &&& m.contains_key(mv.id->0)
            &&& mv.title == m[mv.id->0].0
            &&& mv.release_year == m[mv.id->0].1
            &&& mv.genres matches Some(names) && names.to_set() == name_set(m[mv.id->0].2)
        }
}

/// The names of a list of genres, in order.
fn names_of(gs: &Vec<Genre>) -> (r: Vec<String>)
    ensures
        crate::model::names_view(r@) == genre_names(gs@),
{
    let mut r: Vec<String> = Vec::new();
    let mut i: usize = 0;
    while i < gs.len()
        invariant
            i <= gs@.len(),
            r@.len() == i,
            forall|j: int| 0 <= j < i ==> #[trigger] r@[j]@ == gs@[j].name@,
        decreases gs@.len() - i,
    {
        r.push(gs[i].name.clone());
        i = i + 1;
    }
    assert(crate::model::names_view(r@) =~= genre_names(gs@));
    r
}

/// The names of a genre list are the names of its set of genres.
proof fn lemma_genre_names(gs: Seq<Genre>)
    ensures
        genre_names(gs).to_set() == name_set(genre_set(gs)),
{
    assert(genre_names(gs).to_set() =~= name_set(genre_set(gs))) by {
        assert forall|n: Seq<char>| genre_names(gs).to_set().contains(n) implies name_set(
            genre_set(gs),
        ).contains(n) by {
            let k = choose|k: int| 0 <= k < gs.len() && genre_names(gs)[k] == n;
            assert(genre_set(gs).contains(gs[k].key()));
        }
        assert forall|n: Seq<char>| name_set(genre_set(gs)).contains(n) implies genre_names(
            gs,
        ).to_set().contains(n) by {
            let g = choose|g: GenreKey| genre_set(gs).contains(g) && g.1 == n;
            let k = choose|k: int| 0 <= k < gs.len() && #[trigger] gs[k].key() == g;
            assert(genre_names(gs)[k] == n);
        }
    }
}

impl MovieWithGenres {
    /// The movie as callers see it: the identifier made optional and the genres
    /// reduced to their names.
    pub fn to_movie(&self) -> (r: Movie)
        ensures
            r@ == (MovieView {
                id: Some(self.id),
                title: self.title@,
                release_year: self.release_year,
                genres: Some(genre_names(self.genres@)),
            }),
    {
        Movie {
            id: Some(self.id),
            title: self.title.clone(),
            release_year: self.release_year,
            genres: Some(names_of(&self.genres)),
        }
    }
}

/// Rebuilds the movies that flat join rows describe, with their genre names.
pub fn movies_from_rows(rows: &Vec<MovieWithGenresQuery>) -> (r: Vec<Movie>)
    ensures
        movies_of_rows(movies_view(r@), rows@),
{
    let agg = aggregate_rows(rows);
    let ghost m = aggregate_of(rows@);
    let mut r: Vec<Movie> = Vec::new();
    let mut i: usize = 0;
    while i < agg.len()
        invariant
            i <= agg@.len(),
            m == aggregate_of(rows@),
            crate::aggregate::represents(agg@, m),
            r@.len() == i,
            forall|j: int| 0 <= j < i ==> (#[trigger] r@[j])@ == (MovieView {
                id: Some(agg@[j].id),
                title: agg@[j].title@,
                release_year: agg@[j].release_year,
                genres: Some(genre_names(agg@[j].genres@)),
            }),
        decreases agg@.len() - i,
    {
        r.push(agg[i].to_movie());
        i = i + 1;
    }
    proof {
        let rv = movies_view(r@);
        assert forall|k: int| 0 <= k < rv.len() implies #[trigger] rv[k] == r@[k]@ by {}
        assert forall|k: int| 0 <= k < rv.len() implies ({
            let mv = #[trigger] rv[k];
            &&& mv.id is Some
            &&& m.contains_key(mv.id->0)
            &&& mv.title == m[mv.id->0].0
            &&& mv.release_year == m[mv.id->0].1
            &&& mv.genres matches Some(names) && names.to_set() == name_set(m[mv.id->0].2)
        }) by {
            assert(r@[k]@ == rv[k]);
            lemma_genre_names(agg@[k].genres@);
        }
        assert forall|id: i32| m.contains_key(id) implies exists|k: int|
            0 <= k < rv.len() && #[trigger] rv[k].id == Some(id) by {
            let k = choose|k: int| 0 <= k < agg@.len() && #[trigger] agg@[k].id == id;
            assert(rv[k].id == Some(id));
        }
        assert forall|i: int, j: int| 0 <= i < j < rv.len() implies rv[i].id != rv[j].id by {
            assert(rv[i] == r@[i]@);
            assert(rv[j] == r@[j]@);
            assert(agg@[i].id != agg@[j].id);
        }
    }
    r
}

impl Movie {
    /// The movie with the identifier that the store assigned.
    pub fn with_assigned_id(self, id: i32) -> (r: Movie)
        ensures
            r@ == with_id(self@, Some(id)),
    {
        Movie { id: Some(id), ..self }
    }
}

/// Accepts a movie for a new row: it must carry no identifier and have a
/// non-empty title; otherwise a storage error.
pub fn check_new_movie(movie: &Movie) -> (r: Result<(), AxumQuasarError>)
    ensures
        r is Ok <==> is_new_movie(movie@),
        r matches Err(e) ==> e is DBError,
{
    if movie.id.is_some() || movie.title.as_str().is_empty() {
        Err(AxumQuasarError::DBError("a new movie needs a title and no id".to_owned()))
    } else {
        Ok(())
    }
}

/// Accepts a batch for import when every movie of it could be inserted on its
/// own; otherwise a storage error, before any row is written.
pub fn check_new_batch(movies: &Vec<Movie>) -> (r: Result<(), AxumQuasarError>)
    ensures
        r is Ok <==> all_new(movies_view(movies@)),
        r matches Err(e) ==> e is DBError,
{
    if crate::store::batch_is_new(movies) {
        Ok(())
    } else {
        Err(AxumQuasarError::DBError("every imported movie needs a title and no id".to_owned()))
    }
}

/// The outcome of an update from the number of rows that it changed: no row
/// changed means that no movie has the identifier.
pub fn update_outcome(rows_affected: u64) -> (r: Result<(), AxumQuasarError>)
    ensures
        r is Ok <==> rows_affected > 0,
        r matches Err(e) ==> e is NotFound,
{
    if rows_affected > 0 {
        Ok(())
    } else {
        Err(AxumQuasarError::NotFound)
    }
}

/// What an import transaction does next.
#[derive(Clone, Copy, Debug, PartialEq, Eq, Structural)]
pub enum ImportAction {
    /// Insert the movie at this index of the batch, inside the transaction.
    InsertRow(usize),
    /// Every row is written: commit the transaction.
    Commit,
    /// A row failed: drop the transaction, so that none of the batch stays.
    Abort,
}

/// The next step of an import transaction over `total` movies, of which the
/// first `inserted` are written; `failed` tells that the last insert failed.
/// Rows go in batch order; the transaction commits only after all of them.
pub fn import_action(total: usize, inserted: usize, failed: bool) -> (a: ImportAction)
    requires
        inserted <= total,
    ensures
        failed ==> a == ImportAction::Abort,
        !failed && inserted < total ==> a == ImportAction::InsertRow(inserted),
        !failed && inserted == total ==> a == ImportAction::Commit,
{
    if failed {
        ImportAction::Abort
    } else if inserted < total {
        ImportAction::InsertRow(inserted)
    } else {
        ImportAction::Commit
    }
}

} // verus!
