use axum_quasar::model::{AxumQuasarError, Movie};
use axum_quasar::store::MemoryDB;

fn movie(title: &str, year: i16, genres: &[&str]) -> Movie {
    Movie {
        id: None,
        title: title.to_string(),
        release_year: year,
        genres: Some(genres.iter().map(|g| g.to_string()).collect()),
    }
}

#[test]
fn insert_then_get_returns_input_with_id() {
    let mut db = MemoryDB::new();
    let input = movie("foo bar baz", 1966, &["Drama"]);
    let stored = db.insert_movie(input.clone()).unwrap();
    let id = stored.id.unwrap();
    assert!(id > 0);
    let got = db.get_movie(id).unwrap().unwrap();
    assert_eq!(got, stored);
    assert_eq!(Movie { id: None, ..got }, input);
}

#[test]
fn alien_insert_get_update_get() {
    let mut db = MemoryDB::new();
    let alien = movie("Alien", 1979, &["Horror", "Sci-Fi"]);
    let stored = db.insert_movie(alien).unwrap();
    let id = stored.id.unwrap();
    assert!(id > 0);
    assert_eq!(
        stored.genres,
        Some(vec!["Horror".to_string(), "Sci-Fi".to_string()])
    );
    assert_eq!(db.get_movie(id).unwrap(), Some(stored.clone()));

    let update = Movie {
        id: Some(id),
        title: "Alien".to_string(),
        release_year: 1980,
        genres: Some(vec!["Horror".to_string(), "Sci-Fi".to_string()]),
    };
    db.update_movie(update).unwrap();
    let got = db.get_movie(id).unwrap().unwrap();
    assert_eq!(got.release_year, 1980);
    assert_eq!(got.title, "Alien");
    assert_eq!(got.genres, stored.genres);
}

#[test]
fn update_replaces_the_whole_movie() {
    let mut db = MemoryDB::new();
    let id = db.insert_movie(movie("Alien", 1979, &["Horror", "Sci-Fi"])).unwrap().id.unwrap();
    let update = Movie { id: Some(id), title: "Aliens".to_string(), release_year: 1986, genres: None };
    db.update_movie(update.clone()).unwrap();
    assert_eq!(db.get_movie(id).unwrap(), Some(update));
}

#[test]
fn get_one_missing_is_absence_not_error() {
    let mut db = MemoryDB::new();
    assert!(matches!(db.get_movie(7), Ok(None)));
    db.insert_movie(movie("foo", 2021, &["Drama"])).unwrap();
    assert!(matches!(db.get_movie(12345), Ok(None)));
}

#[test]
fn get_all_lists_stored_movies_in_order() {
    let mut db = MemoryDB::new();
    assert_eq!(db.get_all_movies().unwrap(), vec![]);
    let a = db.insert_movie(movie("foo", 2021, &["Drama"])).unwrap();
    let b = db.insert_movie(movie("bar", 1999, &[])).unwrap();
    assert_eq!(db.get_all_movies().unwrap(), vec![a.clone(), b.clone()]);
    assert_eq!(a.title, "foo");
    assert_ne!(a.id, b.id);
}

#[test]
fn delete_then_get_all_is_empty() {
    let mut db = MemoryDB::new();
    db.insert_movie(movie("foo", 2021, &["Drama"])).unwrap();
    db.insert_movie(movie("bar", 2022, &[])).unwrap();
    db.delete_movies().unwrap();
    assert!(db.get_all_movies().unwrap().is_empty());
    db.delete_movies().unwrap();
    assert!(db.get_all_movies().unwrap().is_empty());
}

#[test]
fn ids_are_not_reused_after_delete() {
    let mut db = MemoryDB::new();
    let first = db.insert_movie(movie("foo", 2021, &[])).unwrap().id.unwrap();
    db.delete_movies().unwrap();
    let second = db.insert_movie(movie("foo", 2021, &[])).unwrap().id.unwrap();
    assert_ne!(first, second);
    assert!(matches!(db.get_movie(first), Ok(None)));
}

#[test]
fn import_adds_one_entity_per_movie() {
    let mut db = MemoryDB::new();
    let batch = vec![
        movie("Alien", 1979, &["Horror", "Sci-Fi"]),
        movie("Heat", 1995, &["Crime"]),
        movie("Alien", 1979, &["Horror", "Sci-Fi"]),
    ];
    db.import_movies(batch.clone()).unwrap();
    let all = db.get_all_movies().unwrap();
    assert_eq!(all.len(), 3);
    for (stored, input) in all.iter().zip(batch.iter()) {
        assert!(stored.id.unwrap() > 0);
        assert_eq!(Movie { id: None, ..stored.clone() }, *input);
    }
    assert_ne!(all[0].id, all[2].id);
}

#[test]
fn failed_import_leaves_nothing() {
    let mut db = MemoryDB::new();
    let kept = db.insert_movie(movie("Heat", 1995, &["Crime"])).unwrap();
    let batch = vec![
        movie("Alien", 1979, &["Horror"]),
        movie("", 2000, &[]),
        movie("Solaris", 1972, &[]),
    ];
    let r = db.import_movies(batch);
    assert!(matches!(r, Err(AxumQuasarError::DBError(_))));
    assert_eq!(db.get_all_movies().unwrap(), vec![kept]);
}

#[test]
fn failed_import_with_preassigned_id_leaves_nothing() {
    let mut db = MemoryDB::new();
    let mut bad = movie("Alien", 1979, &[]);
    bad.id = Some(3);
    let r = db.import_movies(vec![movie("Heat", 1995, &[]), bad]);
    assert!(matches!(r, Err(AxumQuasarError::DBError(_))));
    assert!(db.get_all_movies().unwrap().is_empty());
}

#[test]
fn import_of_empty_batch_succeeds() {
    let mut db = MemoryDB::new();
    db.import_movies(vec![]).unwrap();
    assert!(db.get_all_movies().unwrap().is_empty());
}

#[test]
fn insert_rejects_preassigned_id() {
    let mut db = MemoryDB::new();
    let mut m = movie("Alien", 1979, &[]);
    m.id = Some(5);
    assert!(matches!(db.insert_movie(m), Err(AxumQuasarError::DBError(_))));
    assert!(db.get_all_movies().unwrap().is_empty());
}

#[test]
fn insert_rejects_empty_title() {
    let mut db = MemoryDB::new();
    assert!(matches!(db.insert_movie(movie("", 1979, &[])), Err(AxumQuasarError::DBError(_))));
    assert!(db.get_all_movies().unwrap().is_empty());
}

#[test]
fn update_of_missing_id_is_not_found() {
    let mut db = MemoryDB::new();
    let stored = db.insert_movie(movie("Alien", 1979, &[])).unwrap();
    let missing = Movie { id: Some(stored.id.unwrap() + 100), ..stored.clone() };
    assert!(matches!(db.update_movie(missing), Err(AxumQuasarError::NotFound)));
    let no_id = Movie { id: None, ..stored.clone() };
    assert!(matches!(db.update_movie(no_id), Err(AxumQuasarError::NotFound)));
    assert_eq!(db.get_all_movies().unwrap(), vec![stored]);
}

#[test]
fn update_with_empty_title_is_storage_error() {
    let mut db = MemoryDB::new();
    let stored = db.insert_movie(movie("Alien", 1979, &[])).unwrap();
    let blank = Movie { title: String::new(), ..stored.clone() };
    assert!(matches!(db.update_movie(blank), Err(AxumQuasarError::DBError(_))));
    assert_eq!(db.get_all_movies().unwrap(), vec![stored]);
}

#[test]
fn duplicate_copies_every_field() {
    let m = Movie { id: Some(666), title: "foo".to_string(), release_year: 2021, genres: Some(vec!["Drama".to_string()]) };
    assert_eq!(m.duplicate(), m);
}
