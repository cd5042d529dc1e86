use vstd::prelude::*;

use crate::model::{Genre, MovieWithGenres, MovieWithGenresQuery};

verus! {

/// A genre as a plain value: its identifier and the characters of its name.
pub type GenreKey = (i32, Seq<char>);

/// What the aggregation yields for one movie: its title, its release year and
/// its set of genres.
pub type AggregatedEntry = (Seq<char>, i16, Set<GenreKey>);

/// The genre that a join row carries, present only when both genre fields are.
pub open spec fn row_genre(r: MovieWithGenresQuery) -> Option<GenreKey> {
    match (r.genre_id, r.genre_name) {
        (Some(gid), Some(gname)) => Some((gid, gname@)),
        _ => None,
    }
}

/// Some row refers to the movie `id`.
pub open spec fn row_has_id(rows: Seq<MovieWithGenresQuery>, id: i32) -> bool {
    exists|i: int| 0 <= i < rows.len() && #[trigger] rows[i].movie_id == id
}

/// Row `k` is the first row that refers to the movie `id`.
pub open spec fn is_first_row(rows: Seq<MovieWithGenresQuery>, id: i32, k: int) -> bool {
    &&& 0 <= k < rows.len()
    &&& rows[k].movie_id == id
    &&& forall|j: int| 0 <= j < k ==> #[trigger] rows[j].movie_id != id
}

/// The first row that refers to the movie `id`.
pub open spec fn first_row(rows: Seq<MovieWithGenresQuery>, id: i32) -> MovieWithGenresQuery {
    rows[choose|k: int| is_first_row(rows, id, k)]
}

/// Every genre that some row of the movie `id` carries.
pub open spec fn genres_for(rows: Seq<MovieWithGenresQuery>, id: i32) -> Set<GenreKey> {
    Set::new(
        |g: GenreKey|
            exists|i: int|
                0 <= i < rows.len() && rows[i].movie_id == id && #[trigger] row_genre(rows[i])
                    == Some(g),
    )
}

/// The result of folding join rows: one entry per movie identifier that occurs,
/// with the title and year of its first row and the set of genres of all its
/// rows.
pub open spec fn aggregate_of(rows: Seq<MovieWithGenresQuery>) -> Map<i32, AggregatedEntry> {
    Map::new(
        |id: i32| row_has_id(rows, id),
        |id: i32|
            (first_row(rows, id).movie_title@, first_row(rows, id).movie_release_year, genres_for(rows, id)),
    )
}

/// The set of genres that a list holds.
pub open spec fn genre_set(gs: Seq<Genre>) -> Set<GenreKey> {
    Set::new(|g: GenreKey| exists|k: int| 0 <= k < gs.len() && #[trigger] gs[k].key() == g)
}

/// No genre occurs twice in the list.
pub open spec fn genres_distinct(gs: Seq<Genre>) -> bool {
    forall|a: int, b: int| 0 <= a < b < gs.len() ==> gs[a].key() != gs[b].key()
}

/// No movie identifier occurs twice in the list.
pub open spec fn ids_distinct(out: Seq<MovieWithGenres>) -> bool {
    forall|a: int, b: int| 0 <= a < b < out.len() ==> out[a].id != out[b].id
}

/// The list holds exactly the entries of `m`, one movie per identifier, each
/// with a duplicate-free genre list.
pub open spec fn represents(out: Seq<MovieWithGenres>, m: Map<i32, AggregatedEntry>) -> bool {
    &&& ids_distinct(out)
    &&& forall|id: i32| m.contains_key(id) <==> exists|k: int| 0 <= k < out.len() && #[trigger] out[k].id == id
    &&& forall|k: int|
        0 <= k < out.len() ==> {
            &&& m.contains_key(#[trigger] out[k].id)
            &&& out[k].title@ == m[out[k].id].0
            &&& out[k].release_year == m[out[k].id].1
            &&& genre_set(out[k].genres@) == m[out[k].id].2
            &&& genres_distinct(out[k].genres@)
        }
}

/// Rows that come from one join: all rows of one movie carry the same title
/// and year.
pub open spec fn rows_consistent(rows: Seq<MovieWithGenresQuery>) -> bool {
    forall|i: int, j: int|
        0 <= i < rows.len() && 0 <= j < rows.len() && #[trigger] rows[i].movie_id
            == #[trigger] rows[j].movie_id ==> rows[i].movie_title@ == rows[j].movie_title@
            && rows[i].movie_release_year == rows[j].movie_release_year
}

/// Whether the list already holds the genre `(gid, gname)`.
fn contains_genre(gs: &Vec<Genre>, gid: i32, gname: &String) -> (r: bool)
    ensures
        r == genre_set(gs@).contains((gid, gname@)),
{
    let mut k: usize = 0;
    while k < gs.len()
        invariant
            k <= gs@.len(),
            forall|j: int| 0 <= j < k ==> #[trigger] gs@[j].key() != (gid, gname@),
        decreases gs@.len() - k,
    {
        if gs[k].id == gid && gs[k].name == *gname {
            assert(gs@[k as int].key() == (gid, gname@));
            return true;
        }
        k = k + 1;
    }
    false
}

/// Whether some movie of the list has the identifier `id`.
fn contains_movie(out: &Vec<MovieWithGenres>, id: i32) -> (r: bool)
    ensures
        r == exists|k: int| 0 <= k < out@.len() && #[trigger] out@[k].id == id,
{
    let mut k: usize = 0;
    while k < out.len()
        invariant
            k <= out@.len(),
            forall|j: int| 0 <= j < k ==> #[trigger] out@[j].id != id,
        decreases out@.len() - k,
    {
        if out[k].id == id {
            return true;
        }
        k = k + 1;
    }
    false
}

/// The distinct genres that the rows of the movie `id` carry.
pub fn collect_genres(rows: &Vec<MovieWithGenresQuery>, id: i32) -> (r: Vec<Genre>)
    ensures
        genre_set(r@) == genres_for(rows@, id),
        genres_distinct(r@),
{
    let mut r: Vec<Genre> = Vec::new();
    let mut j: usize = 0;
    while j < rows.len()
        invariant
            j <= rows@.len(),
            genres_distinct(r@),
            forall|k: int|
                0 <= k < r@.len() ==> exists|i: int|
                    0 <= i < j && rows@[i].movie_id == id && #[trigger] row_genre(rows@[i]) == Some(
                        #[trigger] r@[k].key(),
                    ),
            forall|i: int|
                0 <= i < j && rows@[i].movie_id == id && (#[trigger] row_genre(rows@[i])) is Some
                    ==> genre_set(r@).contains(row_genre(rows@[i])->0),
        decreases rows@.len() - j,
    {
        let row = &rows[j];
        if row.movie_id == id {
            match (&row.genre_id, &row.genre_name) {
                (Some(gid), Some(gname)) => {
                    if !contains_genre(&r, *gid, gname) {
                        let ghost before = r@;
                        r.push(Genre { id: *gid, name: gname.clone() });
                        assert(r@[before.len() as int].key() == (*gid, gname@));
                        assert forall|i: int|
                            0 <= i < j + 1 && rows@[i].movie_id == id && (#[trigger] row_genre(
                                rows@[i],
                            )) is Some implies genre_set(r@).contains(row_genre(rows@[i])->0) by {
                            if i < j {
                                let g = row_genre(rows@[i])->0;
                                let k = choose|k: int| 0 <= k < before.len() && #[trigger] before[k].key() == g;
                                assert(r@[k].key() == g);
                            } else {
                                assert(r@[before.len() as int].key() == row_genre(rows@[i])->0);
                            }
                        }
                        assert forall|k: int| 0 <= k < r@.len() implies exists|i: int|
                            0 <= i < j + 1 && rows@[i].movie_id == id && #[trigger] row_genre(rows@[i])
                                == Some(#[trigger] r@[k].key()) by {
                            if k == before.len() {
                                assert(row_genre(rows@[j as int]) == Some(r@[k].key()));
                            } else {
                                assert(r@[k] == before[k]);
                            }
                        }
                    } else {
                        assert forall|i: int|
                            0 <= i < j + 1 && rows@[i].movie_id == id && (#[trigger] row_genre(
                                rows@[i],
                            )) is Some implies genre_set(r@).contains(row_genre(rows@[i])->0) by {
                            if i == j {
                                assert(row_genre(rows@[i]) == Some((*gid, gname@)));
                            }
                        }
                    }
                },
                _ => {},
            }
        }
        j = j + 1;
    }
    assert(genre_set(r@) =~= genres_for(rows@, id)) by {
        assert forall|g: GenreKey| genres_for(rows@, id).contains(g) implies genre_set(
            r@,
        ).contains(g) by {
            let i = choose|i: int|
                0 <= i < rows@.len() && rows@[i].movie_id == id && #[trigger] row_genre(rows@[i])
                    == Some(g);
            assert(row_genre(rows@[i]) is Some);
        }
        assert forall|g: GenreKey| genre_set(r@).contains(g) implies genres_for(
            rows@,
            id,
        ).contains(g) by {
            let k = choose|k: int| 0 <= k < r@.len() && #[trigger] r@[k].key() == g;
            assert(r@[k].key() == g);
        }
    }
    r
}

/// Folds flat join rows into one movie per distinct identifier, in the order
/// in which the identifiers first occur. A movie whose rows carry no genre is
/// kept, with no genres; a genre that several rows repeat is kept once.
pub fn aggregate_rows(rows: &Vec<MovieWithGenresQuery>) -> (r: Vec<MovieWithGenres>)
    ensures
        represents(r@, aggregate_of(rows@)),
{
    let ghost m = aggregate_of(rows@);
    let mut out: Vec<MovieWithGenres> = Vec::new();
    let mut i: usize = 0;
    while i < rows.len()
        invariant
            i <= rows@.len(),
            m == aggregate_of(rows@),
            ids_distinct(out@),
            forall|j: int|
                0 <= j < i ==> exists|k: int|
                    0 <= k < out@.len() && out@[k].id == #[trigger] rows@[j].movie_id,
            forall|k: int|
                0 <= k < out@.len() ==> {
                    &&& m.contains_key(#[trigger] out@[k].id)
                    &&& out@[k].title@ == m[out@[k].id].0
                    &&& out@[k].release_year == m[out@[k].id].1
                    &&& genre_set(out@[k].genres@) == m[out@[k].id].2
                    &&& genres_distinct(out@[k].genres@)
                },
        decreases rows@.len() - i,
    {
        let id = rows[i].movie_id;
        let ghost before = out@;
        let found = contains_movie(&out, id);
        if !found {
            assert(is_first_row(rows@, id, i as int));
            let title = rows[i].movie_title.clone();
            let release_year = rows[i].movie_release_year;
            let genres = collect_genres(rows, id);
            out.push(MovieWithGenres { id, title, release_year, genres });
            assert(row_has_id(rows@, id));
            assert(first_row(rows@, id) == rows@[i as int]) by {
                let k = choose|k: int| is_first_row(rows@, id, k);
                assert(is_first_row(rows@, id, k));
                if k < i {
                    assert(rows@[k].movie_id != id);
                } else if k > i {
                    assert(rows@[i as int].movie_id != id);
                }
            }
            assert(out@[before.len() as int].id == id);
            assert forall|k: int| 0 <= k < before.len() implies #[trigger] out@[k] == before[k] by {}
        }
        assert forall|j: int| 0 <= j < i + 1 implies exists|k: int|
            0 <= k < out@.len() && out@[k].id == #[trigger] rows@[j].movie_id by {
            if j < i {
                let k = choose|k: int| 0 <= k < before.len() && before[k].id == rows@[j].movie_id;
                assert(out@[k] == before[k]);
            } else if !found {
                assert(out@[before.len() as int].id == rows@[j].movie_id);
            }
        }
        i = i + 1;
    }
    assert forall|id: i32| m.contains_key(id) implies exists|k: int|
        0 <= k < out@.len() && #[trigger] out@[k].id == id by {
        let j = choose|j: int| 0 <= j < rows@.len() && #[trigger] rows@[j].movie_id == id;
        assert(rows@[j].movie_id == id);
    }
    out
}

/// Feeding the aggregation the same rows, in any order and with any row
/// repeated, yields the same movies with the same genre sets.
pub proof fn lemma_aggregation_order_independent(
    a: Seq<MovieWithGenresQuery>,
    b: Seq<MovieWithGenresQuery>,
)
    requires
        rows_consistent(a),
        forall|x: MovieWithGenresQuery| a.contains(x) <==> b.contains(x),
    ensures
        aggregate_of(a) == aggregate_of(b),
{
    assert forall|i: int| 0 <= i < b.len() implies #[trigger] a.contains(b[i]) by {
        assert(b.contains(b[i]));
    }
    assert forall|i: int| 0 <= i < a.len() implies #[trigger] b.contains(a[i]) by {
        assert(a.contains(a[i]));
    }
    assert forall|id: i32| row_has_id(a, id) <==> row_has_id(b, id) by {
        if row_has_id(a, id) {
            let i = choose|i: int| 0 <= i < a.len() && #[trigger] a[i].movie_id == id;
            assert(b.contains(a[i]));
            let j = choose|j: int| 0 <= j < b.len() && b[j] == a[i];
            assert(b[j].movie_id == id);
        }
        if row_has_id(b, id) {
            let j = choose|j: int| 0 <= j < b.len() && #[trigger] b[j].movie_id == id;
            assert(a.contains(b[j]));
            let i = choose|i: int| 0 <= i < a.len() && a[i] == b[j];
            assert(a[i].movie_id == id);
        }
    }
    assert forall|id: i32| row_has_id(a, id) implies first_row(a, id).movie_title@ == first_row(
        b,
        id,
    ).movie_title@ && first_row(a, id).movie_release_year == first_row(b, id).movie_release_year
        && genres_for(a, id) == genres_for(b, id) by {
        let i = choose|i: int| 0 <= i < a.len() && #[trigger] a[i].movie_id == id;
        let fa = first_index(a, id, i);
        assert(row_has_id(b, id));
        let j = choose|j: int| 0 <= j < b.len() && #[trigger] b[j].movie_id == id;
        let fb = first_index(b, id, j);
        let ka = choose|k: int| is_first_row(a, id, k);
        let kb = choose|k: int| is_first_row(b, id, k);
        assert(a.contains(b[kb]));
        let ia = choose|x: int| 0 <= x < a.len() && a[x] == b[kb];
        assert(a[ia].movie_id == a[ka].movie_id);
        assert(genres_for(a, id) =~= genres_for(b, id)) by {
            assert forall|g: GenreKey| genres_for(a, id).contains(g) implies genres_for(
                b,
                id,
            ).contains(g) by {
                let x = choose|x: int|
                    0 <= x < a.len() && a[x].movie_id == id && #[trigger] row_genre(a[x]) == Some(
                        g,
                    );
                assert(b.contains(a[x]));
                let y = choose|y: int| 0 <= y < b.len() && b[y] == a[x];
                assert(row_genre(b[y]) == Some(g));
            }
            assert forall|g: GenreKey| genres_for(b, id).contains(g) implies genres_for(
                a,
                id,
            ).contains(g) by {
                let y = choose|y: int|
                    0 <= y < b.len() && b[y].movie_id == id && #[trigger] row_genre(b[y]) == Some(
                        g,
                    );
                assert(a.contains(b[y]));
                let x = choose|x: int| 0 <= x < a.len() && a[x] == b[y];
                assert(row_genre(a[x]) == Some(g));
            }
        }
    }
    assert(aggregate_of(a) =~= aggregate_of(b));
}

/// The index of the first row of the movie `id`, given some row `i` of it.
proof fn first_index(rows: Seq<MovieWithGenresQuery>, id: i32, i: int) -> (k: int)
    requires
        0 <= i < rows.len(),
        rows[i].movie_id == id,
    ensures
        is_first_row(rows, id, k),
    decreases i,
{
    if exists|j: int| 0 <= j < i && #[trigger] rows[j].movie_id == id {
        let j = choose|j: int| 0 <= j < i && #[trigger] rows[j].movie_id == id;
        first_index(rows, id, j)
    } else {
        i
    }
}

/// A movie whose rows carry no genre is kept by the aggregation, with an empty
/// set of genres.
pub proof fn lemma_genreless_movie_kept(rows: Seq<MovieWithGenresQuery>, id: i32)
    requires
        row_has_id(rows, id),
        forall|i: int| 0 <= i < rows.len() && rows[i].movie_id == id ==> #[trigger] row_genre(rows[i]) is None,
    ensures
        aggregate_of(rows).contains_key(id),
        aggregate_of(rows)[id].2 == Set::<GenreKey>::empty(),
{
    assert(genres_for(rows, id) =~= Set::<GenreKey>::empty());
}

} // verus!
