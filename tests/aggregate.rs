use axum_quasar::aggregate::{aggregate_rows, collect_genres};
use axum_quasar::model::{Genre, MovieWithGenres, MovieWithGenresQuery};

fn row(id: i32, title: &str, year: i16, genre: Option<(i32, &str)>) -> MovieWithGenresQuery {
    MovieWithGenresQuery {
        movie_id: id,
        movie_title: title.to_string(),
        movie_release_year: year,
        genre_id: genre.map(|g| g.0),
        genre_name: genre.map(|g| g.1.to_string()),
    }
}

fn genre(id: i32, name: &str) -> Genre {
    Genre { id, name: name.to_string() }
}

/// Sorts movies by id and genres by (id, name), to compare outputs as sets.
fn normalized(mut v: Vec<MovieWithGenres>) -> Vec<MovieWithGenres> {
    for m in v.iter_mut() {
        m.genres.sort_by(|a, b| (a.id, &a.name).cmp(&(b.id, &b.name)));
    }
    v.sort_by_key(|m| m.id);
    v
}

fn sample_rows() -> Vec<MovieWithGenresQuery> {
    vec![
        row(1, "Alien", 1979, Some((10, "Horror"))),
        row(2, "Heat", 1995, Some((30, "Crime"))),
        row(1, "Alien", 1979, Some((20, "Sci-Fi"))),
        row(3, "Solaris", 1972, None),
    ]
}

#[test]
fn one_movie_per_id_in_first_seen_order() {
    let out = aggregate_rows(&sample_rows());
    assert_eq!(out.len(), 3);
    assert_eq!(out[0].id, 1);
    assert_eq!(out[0].title, "Alien");
    assert_eq!(out[0].release_year, 1979);
    assert_eq!(out[0].genres, vec![genre(10, "Horror"), genre(20, "Sci-Fi")]);
    assert_eq!(out[1].id, 2);
    assert_eq!(out[1].genres, vec![genre(30, "Crime")]);
    assert_eq!(out[2].id, 3);
}

#[test]
fn movie_without_genres_is_kept_with_empty_set() {
    let out = aggregate_rows(&vec![row(7, "Solaris", 1972, None)]);
    assert_eq!(
        out,
        vec![MovieWithGenres { id: 7, title: "Solaris".to_string(), release_year: 1972, genres: vec![] }]
    );
}

#[test]
fn aggregation_ignores_order_and_repetition() {
    let rows = sample_rows();
    let expected = normalized(aggregate_rows(&rows));
    let mut reversed = rows.clone();
    reversed.reverse();
    assert_eq!(normalized(aggregate_rows(&reversed)), expected);
    let mut twice = rows.clone();
    twice.extend(rows.iter().cloned());
    assert_eq!(normalized(aggregate_rows(&twice)), expected);
    let shuffled = vec![rows[3].clone(), rows[2].clone(), rows[0].clone(), rows[1].clone(), rows[2].clone()];
    assert_eq!(normalized(aggregate_rows(&shuffled)), expected);
}

#[test]
fn duplicate_genre_pairs_collapse() {
    let rows = vec![
        row(1, "Alien", 1979, Some((10, "Horror"))),
        row(1, "Alien", 1979, Some((10, "Horror"))),
        row(1, "Alien", 1979, Some((10, "Scary"))),
    ];
    let out = aggregate_rows(&rows);
    assert_eq!(out.len(), 1);
    assert_eq!(out[0].genres, vec![genre(10, "Horror"), genre(10, "Scary")]);
}

#[test]
fn half_null_genre_is_no_genre() {
    let mut r = row(1, "Alien", 1979, None);
    r.genre_id = Some(4);
    let out = aggregate_rows(&vec![r]);
    assert_eq!(out.len(), 1);
    assert!(out[0].genres.is_empty());
}

#[test]
fn empty_rows_give_no_movies() {
    assert!(aggregate_rows(&vec![]).is_empty());
}

#[test]
fn collect_genres_takes_only_that_movie() {
    let gs = collect_genres(&sample_rows(), 2);
    assert_eq!(gs, vec![genre(30, "Crime")]);
    assert!(collect_genres(&sample_rows(), 3).is_empty());
    assert!(collect_genres(&sample_rows(), 99).is_empty());
}
