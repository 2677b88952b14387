use bookstore_auth::api::{Author, Book, ResAuthor, ResAuthorList, ResBook, ResBookList};
use bookstore_auth::config::AppConfig;

fn author(id: i32) -> Author {
    Author {
        id,
        user_id: 99,
        firstname: format!("F{}", id),
        lastname: format!("L{}", id),
        bio: "bio".to_string(),
    }
}

fn book(id: i32) -> Book {
    Book {
        id,
        user_id: 99,
        author_id: 3,
        title: format!("T{}", id),
        year: "1999".to_string(),
        cover: "c.png".to_string(),
    }
}

#[test]
fn author_view_copies_profile() {
    let r = ResAuthor::from(&author(4));
    assert_eq!(r.id, 4);
    assert_eq!(r.firstname, "F4");
    assert_eq!(r.lastname, "L4");
    assert_eq!(r.bio, "bio");
}

#[test]
fn book_view_copies_fields() {
    let r = ResBook::from(&book(8));
    assert_eq!(r.id, 8);
    assert_eq!(r.author_id, 3);
    assert_eq!(r.title, "T8");
    assert_eq!(r.year, "1999");
    assert_eq!(r.cover, "c.png");
}

#[test]
fn lists_carry_their_count() {
    let authors = vec![author(1), author(2), author(3)];
    let list = ResAuthorList::from_authors(&authors);
    assert_eq!(list.total, 3);
    assert_eq!(list.authors[2].id, 3);
    let empty = ResAuthorList::from_authors(&Vec::new());
    assert_eq!(empty.total, 0);
    let books = vec![book(5), book(6)];
    let blist = ResBookList::from_books(&books);
    assert_eq!(blist.total, 2);
    assert_eq!(blist.books[0].title, "T5");
}

#[test]
fn database_url_layout() {
    let c = AppConfig {
        db_host: "localhost".to_string(),
        db_port: "5432".to_string(),
        db_username: "postgres".to_string(),
        db_password: "pw".to_string(),
        db_database: "bookstore".to_string(),
        jwt_secret: "s".to_string(),
    };
    assert_eq!(c.database_url(), "postgres://postgres:pw@localhost:5432/bookstore");
}
