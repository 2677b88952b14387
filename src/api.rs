//! Request and response bodies of the HTTP surface.
use vstd::prelude::*;

verus! {

/// Body of a sign-in request.
pub struct ReqSignIn {
    pub email: String,
    pub password: String,
}

/// Body of a successful sign-in: the session token.
pub struct ResSignIn {
    pub token: String,
}

/// Body of a sign-up request.
pub struct ReqSignUp {
    pub email: String,
    pub password: String,
    pub firstname: String,
    pub lastname: String,
}

/// Body of a sign-up answer that carries a token.
pub struct ResSignUp {
    pub token: String,
}

/// A stored author.
pub struct Author {
    pub id: i32,
    pub user_id: i32,
    pub firstname: String,
    pub lastname: String,
    pub bio: String,
}

/// A stored book.
pub struct Book {
    pub id: i32,
    pub user_id: i32,
    pub author_id: i32,
    pub title: String,
    pub year: String,
    pub cover: String,
}

/// An author as the API shows it.
pub struct ResAuthor {
    pub id: i32,
    pub firstname: String,
    pub lastname: String,
    pub bio: String,
}

/// Body of an author create or update request.
pub struct ReqAuthor {
    pub firstname: String,
    pub lastname: String,
    pub bio: String,
}

/// A list of authors with its count.
pub struct ResAuthorList {
    pub total: usize,
    pub authors: Vec<ResAuthor>,
}

/// Body of a book create or update request.
pub struct ReqBook {
    pub author_id: i32,
    pub title: String,
    pub year: String,
    pub cover: String,
}

/// A book as the API shows it.
pub struct ResBook {
    pub id: i32,
    pub author_id: i32,
    pub title: String,
    pub year: String,
    pub cover: String,
}

/// A list of books with its count.
pub struct ResBookList {
    pub total: usize,
    pub books: Vec<ResBook>,
}

fn copy_string(s: &String) -> (r: String)
    ensures
        r@ == s@,
{
    s.clone()
}

impl ResAuthor {
    /// The API view of a stored author: its id and profile, not its owner.
    pub fn from(a: &Author) -> (r: ResAuthor)
        ensures
            r.id == a.id,
            r.firstname@ == a.firstname@,
            r.lastname@ == a.lastname@,
            r.bio@ == a.bio@,
    {
        ResAuthor {
            id: a.id,
            firstname: copy_string(&a.firstname),
            lastname: copy_string(&a.lastname),
            bio: copy_string(&a.bio),
        }
    }
}

impl ResBook {
    /// The API view of a stored book: all but its owner.
    pub fn from(b: &Book) -> (r: ResBook)
        ensures
            r.id == b.id,
            r.author_id == b.author_id,
            r.title@ == b.title@,
            r.year@ == b.year@,
            r.cover@ == b.cover@,
    {
        ResBook {
            id: b.id,
            author_id: b.author_id,
            title: copy_string(&b.title),
            year: copy_string(&b.year),
            cover: copy_string(&b.cover),
        }
    }
}

impl ResAuthorList {
    /// The list of the views of the stored authors, in their order, with their count.
    pub fn from_authors(authors: &Vec<Author>) -> (r: ResAuthorList)
        ensures
            r.total == authors@.len(),
            r.authors@.len() == authors@.len(),
            forall|i: int|
                0 <= i < authors@.len() ==> (#[trigger] r.authors@[i]).id == authors@[i].id
                    && r.authors@[i].firstname@ == authors@[i].firstname@
                    && r.authors@[i].lastname@ == authors@[i].lastname@ && r.authors@[i].bio@
                    == authors@[i].bio@,
    {
        let mut out: Vec<ResAuthor> = Vec::new();
        let mut i: usize = 0;
        while i < authors.len()
            invariant
                i <= authors@.len(),
                out@.len() == i,
                forall|k: int|
                    0 <= k < i ==> (#[trigger] out@[k]).id == authors@[k].id
                        && out@[k].firstname@ == authors@[k].firstname@
                        && out@[k].lastname@ == authors@[k].lastname@ && out@[k].bio@
                        == authors@[k].bio@,
            decreases authors@.len() - i,
        {
            out.push(ResAuthor::from(&authors[i]));
            i = i + 1;
        }
        ResAuthorList { total: out.len(), authors: out }
    }
}

impl ResBookList {
    /// The list of the views of the stored books, in their order, with their count.
    pub fn from_books(books: &Vec<Book>) -> (r: ResBookList)
        ensures
            r.total == books@.len(),
            r.books@.len() == books@.len(),
            forall|i: int|
                0 <= i < books@.len() ==> (#[trigger] r.books@[i]).id == books@[i].id
                    && r.books@[i].author_id == books@[i].author_id
                    && r.books@[i].title@ == books@[i].title@ && r.books@[i].year@
                    == books@[i].year@ && r.books@[i].cover@ == books@[i].cover@,
    {
        let mut out: Vec<ResBook> = Vec::new();
        let mut i: usize = 0;
        while i < books.len()
            invariant
                i <= books@.len(),
                out@.len() == i,
                forall|k: int|
                    0 <= k < i ==> (#[trigger] out@[k]).id == books@[k].id
                        && out@[k].author_id == books@[k].author_id
                        && out@[k].title@ == books@[k].title@ && out@[k].year@
                        == books@[k].year@ && out@[k].cover@ == books@[k].cover@,
            decreases books@.len() - i,
        {
            out.push(ResBook::from(&books[i]));
            i = i + 1;
        }
        ResBookList { total: out.len(), books: out }
    }
}

} // verus!
