use vstd::prelude::*;

verus! {

/// A genre label. Two genres are the same genre exactly when both the
/// identifier and the name agree.
#[derive(Clone, Debug, PartialEq, Eq)]
pub struct Genre {
    pub id: i32,
    pub name: String,
}

impl Genre {
    /// The genre as a plain value: its identifier and the characters of its name.
    pub open spec fn key(self) -> (i32, Seq<char>) {
        (self.id, self.name@)
    }
}

/// A movie as it travels between callers and the store. `id` is absent until
/// the store assigns one; `genres` carries plain genre names.
#[derive(Clone, Debug, PartialEq, Eq)]
pub struct Movie {
    pub id: Option<i32>,
    pub title: String,
    pub release_year: i16,
    pub genres: Option<Vec<String>>,
}

/// The mathematical value of a [`Movie`]: the same fields, with text as
/// character sequences.
pub struct MovieView {
    pub id: Option<i32>,
    pub title: Seq<char>,
    pub release_year: i16,
    pub genres: Option<Seq<Seq<char>>>,
}

/// The characters of each name in a list of names.
pub open spec fn names_view(names: Seq<String>) -> Seq<Seq<char>> {
    names.map_values(|s: String| s@)
}

impl View for Movie {
    type V = MovieView;

    open spec fn view(&self) -> MovieView {
        MovieView {
            id: self.id,
            title: self.title@,
            release_year: self.release_year,
            genres: match self.genres {
                Some(g) => Some(names_view(g@)),
                None => None,
            },
        }
    }
}

/// The same movie value with its identifier replaced.
pub open spec fn with_id(m: MovieView, id: Option<i32>) -> MovieView {
    MovieView { id, ..m }
}

/// A movie value that a client may hand to the store for a new row: it carries
/// no identifier yet and has a non-empty title.
pub open spec fn is_new_movie(m: MovieView) -> bool {
    m.id is None && m.title.len() > 0
}

/// A copy of a list of names, name by name.
pub fn copy_names(names: &Vec<String>) -> (r: Vec<String>)
    ensures
        names_view(r@) == names_view(names@),
{
    let mut r: Vec<String> = Vec::new();
    let mut i: usize = 0;
    while i < names.len()
        invariant
            i <= names@.len(),
            r@.len() == i,
            forall|j: int| 0 <= j < i ==> r@[j]@ == names@[j]@,
        decreases names@.len() - i,
    {
        r.push(names[i].clone());
        i = i + 1;
    }
    assert(names_view(r@) =~= names_view(names@));
    r
}

impl Movie {
    /// A copy of this movie, field by field.
    pub fn duplicate(&self) -> (r: Movie)
        ensures
            r@ == self@,
    {
        let genres = match &self.genres {
            Some(g) => Some(copy_names(g)),
            None => None,
        };
        Movie { id: self.id, title: self.title.clone(), release_year: self.release_year, genres }
    }
}

/// The error kinds that every storage operation reports.
#[derive(Clone, Debug, PartialEq, Eq)]
pub enum AxumQuasarError {
    /// A failure of the backing store, with its message.
    DBError(String),
    /// The requested movie does not exist.
    NotFound,
}

/// One flat row of the movie-to-genre left join: the genre fields are both
/// absent for a movie without genres.
#[derive(Clone, Debug, PartialEq, Eq)]
pub struct MovieWithGenresQuery {
    pub movie_id: i32,
    pub movie_title: String,
    pub movie_release_year: i16,
    pub genre_id: Option<i32>,
    pub genre_name: Option<String>,
}

/// A movie rebuilt from join rows, with its genres as a duplicate-free list.
#[derive(Clone, Debug, PartialEq, Eq)]
pub struct MovieWithGenres {
    pub id: i32,
    pub title: String,
    pub release_year: i16,
    pub genres: Vec<Genre>,
}

} // verus!
