//! Reading the book that is open.
use vstd::prelude::*;

use crate::calls::{Answer, AnswerView, Failure, FailureView};
use crate::json::{a_field_reads_back, an_empty_object_has_nothing, docs, Doc, Json};
use crate::words::cat2;

verus! {

/// A signed book.
pub struct Written {
    pub title: String,
    pub author: String,
    pub generation: i32,
    /// The pages as the server wrote them.
    pub pages: Vec<Json>,
}

/// A stack, as far as it is a book.
pub struct Book {
    pub written: Option<Written>,
    /// What was typed into a book that is not signed.
    pub writable: Option<Vec<String>>,
}

#[derive(Clone, Copy, Debug, PartialEq, Eq, Structural)]
pub enum Hand {
    Main,
    Off,
}

/// What is on screen.
pub enum Showing {
    /// A lectern, with the book on it and the page it is turned to where the server has said.
    Lectern { book: Book, page: Option<i32> },
    /// Another window, by the name of its screen.
    Window(&'static str),
    Nothing,
}

/// The pages of a book as components: as the server wrote them, or as the text typed in.
pub open spec fn pages_of(book: Book) -> Seq<Doc> {
    match book.written {
        Some(written) => docs(written.pages@),
        None => match book.writable {
            Some(pages) => Seq::new(pages@.len(), |i: int| Doc::Text(pages@[i]@)),
            None => Seq::empty(),
        },
    }
}

/// A written book's pages as the server wrote them, or a writable book's as the text typed into it.
fn pages(book: &Book) -> (r: Vec<Json>)
    ensures
        docs(r@) == pages_of(*book),
{
    let mut out: Vec<Json> = Vec::new();
    match &book.written {
        Some(written) => {
            let mut i: usize = 0;
            while i < written.pages.len()
                invariant
                    i <= written.pages@.len(),
                    out@.len() == i,
                    forall|k: int| 0 <= k < i ==> (#[trigger] out@[k])@ == written.pages@[k]@,
                decreases written.pages@.len() - i,
            {
                out.push(written.pages[i].copy());
                i += 1;
            }
        },
        None => {
            match &book.writable {
                Some(typed) => {
                    let mut i: usize = 0;
                    while i < typed.len()
                        invariant
                            i <= typed@.len(),
                            out@.len() == i,
                            forall|k: int|
                                0 <= k < i ==> (#[trigger] out@[k])@ == Doc::Text(typed@[k]@),
                        decreases typed@.len() - i,
                    {
                        out.push(Json::Text(typed[i].clone()));
                        i += 1;
                    }
                },
                None => {},
            }
        },
    }
    proof {
        assert(docs(out@) =~= pages_of(*book));
    }
    out
}

/// The words of a list of components.
pub open spec fn words_of(list: Seq<Doc>) -> Seq<Doc> {
    Seq::new(list.len(), |i: int| Doc::Text(list[i].words()))
}

/// The signed book a title is read from: the one on the lectern, or the first that a hand holds.
pub open spec fn signed_book(lectern: Option<Book>, main: Book, off: Book) -> Option<Written> {
    match lectern {
        Some(book) => book.written,
        None => match main.written {
            Some(written) => Some(written),
            None => off.written,
        },
    }
}

pub open spec fn book_doc(
    source: Seq<char>,
    page: int,
    pages: Seq<Doc>,
    written: Option<Written>,
) -> Doc {
    Doc::object().with("source"@, Doc::Text(source)).with("page"@, Doc::number(page)).with(
        "pages"@,
        Doc::list(words_of(pages)),
    ).with("pageComponents"@, Doc::list(pages)).with(
        "title"@,
        match written {
            Some(written) => Doc::Text(written.title@),
            None => Doc::Null,
        },
    ).with(
        "author"@,
        match written {
            Some(written) => Doc::Text(written.author@),
            None => Doc::Null,
        },
    ).with(
        "generation"@,
        match written {
            Some(written) => Doc::number(written.generation as int),
            None => Doc::Null,
        },
    )
}

/// The book that is open, every page of it, or that none is. The screen of a book in a hand always
/// opens it at its first page.
pub open spec fn open_book_of(showing: Showing, reading: Option<Hand>, main: Book, off: Book) -> Result<
    Doc,
    FailureView,
> {
    match showing {
        Showing::Lectern { book, page } => Ok(
            book_doc(
                "lectern"@,
                1 + match page {
                    Some(page) => page as int,
                    None => 0,
                },
                pages_of(book),
                signed_book(Some(book), main, off),
            ),
        ),
        _ => match reading {
            Some(hand) => Ok(
                book_doc(
                    "hand"@,
                    1,
                    pages_of(
                        match hand {
                            Hand::Main => main,
                            Hand::Off => off,
                        },
                    ),
                    signed_book(None, main, off),
                ),
            ),
            None => Err(
                FailureView::refusal(
                    "NO_BOOK"@,
                    match showing {
                        Showing::Window(screen) => screen@ + " is open, and it is not a book."@,
                        _ => "no book is open. Use a written book, or right-click a lectern with one on it."@,
                    },
                ),
            ),
        },
    }
}

fn document(source: &str, page: i64, pages: Vec<Json>, written: Option<&Written>) -> (r: Json)
    ensures
        r@ == book_doc(
            source@,
            page as int,
            docs(pages@),
            match written {
                Some(written) => Some(*written),
                None => None,
            },
        ),
{
    let mut words: Vec<Json> = Vec::new();
    let mut i: usize = 0;
    while i < pages.len()
        invariant
            i <= pages@.len(),
            words@.len() == i,
            forall|k: int|
                0 <= k < i ==> (#[trigger] words@[k])@ == Doc::Text(docs(pages@)[k].words()),
        decreases pages@.len() - i,
    {
        proof {
            assert(docs(pages@)[i as int] == pages@[i as int]@);
        }
        words.push(Json::Text(pages[i].words()));
        i += 1;
    }
    proof {
        assert(docs(words@) =~= words_of(docs(pages@)));
    }
    let title = match written {
        Some(written) => Json::Text(written.title.clone()),
        None => Json::Null,
    };
    let author = match written {
        Some(written) => Json::Text(written.author.clone()),
        None => Json::Null,
    };
    let generation = match written {
        Some(written) => Json::number(written.generation as i64),
        None => Json::Null,
    };
    Json::object().with("source", Json::text(source)).with("page", Json::number(page)).with(
        "pages",
        Json::list(words),
    ).with("pageComponents", Json::list(pages)).with("title", title).with("author", author).with(
        "generation",
        generation,
    )
}

/// Read the book that is open, every page of it: a quest log, a rulebook, a guide handed out on
/// join. The client draws one page at a time, and a page is a component a picture cannot give back.
///
/// A lectern shows the same screen, so a book on a stand reads the same way as one in hand. Title
/// and author are not on the screen, which is handed the pages alone: a lectern knows the stack it
/// shows, and a book read from the hand is whichever hand holds a written one.
pub fn open_book(showing: &Showing, reading: Option<Hand>, main: &Book, off: &Book) -> (r: Result<
    Json,
    Failure,
>)
    ensures
        match r {
            Ok(data) => open_book_of(*showing, reading, *main, *off) == Ok::<Doc, FailureView>(
                data@,
            ),
            Err(failure) => open_book_of(*showing, reading, *main, *off) == Err::<Doc, FailureView>(
                failure@,
            ),
        },
{
    match showing {
        Showing::Lectern { book, page } => {
            let page: i64 = match page {
                Some(page) => *page as i64,
                None => 0,
            };
            let written = match &book.written {
                Some(written) => Some(written),
                None => None,
            };
            Ok(document("lectern", page + 1, pages(book), written))
        },
        _ => {
            let hand = match reading {
                Some(hand) => hand,
                None => {
                    let message = match showing {
                        Showing::Window(screen) => cat2(screen, " is open, and it is not a book."),
                        _ => "no book is open. Use a written book, or right-click a lectern with one on it.".to_owned(),
                    };
                    return Err(Failure::refused("NO_BOOK", message));
                },
            };
            let book = match hand {
                Hand::Main => main,
                Hand::Off => off,
            };
            let written = match &main.written {
                Some(written) => Some(written),
                None => match &off.written {
                    Some(written) => Some(written),
                    None => None,
                },
            };
            Ok(document("hand", 1, pages(book), written))
        },
    }
}

/// What read-book answers.
pub fn read_book(showing: &Showing, reading: Option<Hand>, main: &Book, off: &Book) -> (r: Result<
    Answer,
    Failure,
>)
    ensures
        match r {
            Ok(answer) => open_book_of(*showing, reading, *main, *off) matches Ok(data) && answer@
                == AnswerView::full("read-book"@, data),
            Err(failure) => open_book_of(*showing, reading, *main, *off) == Err::<Doc, FailureView>(
                failure@,
            ),
        },
{
    match open_book(showing, reading, main, off) {
        Ok(data) => Ok(Answer::data("read-book".to_owned(), data)),
        Err(failure) => Err(failure),
    }
}

/// What is told of a book: where it is read, the page it is open at, every page in words and as it was
/// written, and who wrote it where it is signed.
pub proof fn a_book_is_told_as_it_is_written(
    source: Seq<char>,
    page: int,
    pages: Seq<Doc>,
    written: Option<Written>,
    i: int,
)
    ensures
        ({
            let told = book_doc(source, page, pages, written);
            &&& told.text_at("source"@) == Some(source)
            &&& told.at("page"@) == Some(Doc::number(page))
            &&& told.items_at("pages"@)->0.len() == pages.len()
            &&& 0 <= i < pages.len() ==> told.items_at("pages"@)->0[i] == Doc::Text(pages[i].words())
            &&& told.items_at("pageComponents"@) == Some(pages)
            &&& written matches Some(book) ==> told.text_at("title"@) == Some(book.title@)
                && told.text_at("author"@) == Some(book.author@) && told.at("generation"@) == Some(
                Doc::number(book.generation as int),
            )
            &&& written is None ==> told.at("title"@) == Some(Doc::Null) && told.at("author"@) == Some(
                Doc::Null,
            ) && told.at("generation"@) == Some(Doc::Null)
        }),
{
    broadcast use {a_field_reads_back, an_empty_object_has_nothing};
    reveal_strlit("source");
    reveal_strlit("page");
    reveal_strlit("pages");
    reveal_strlit("pageComponents");
    reveal_strlit("title");
    reveal_strlit("author");
    reveal_strlit("generation");
    assert("source"@.len() == 6);
    assert("page"@.len() == 4);
    assert("pages"@.len() == 5);
    assert("pageComponents"@.len() == 14);
    assert("title"@.len() == 5);
    assert("author"@.len() == 6);
    assert("generation"@.len() == 10);
    assert("source"@[0] != "author"@[0]);
    assert("pages"@[0] != "title"@[0]);
}

/// The book that is read is the one on the lectern, at its page counted from one, or the one in the
/// hand that reads it, at its first; with neither there is none.
pub proof fn the_book_that_is_read_is_the_one_shown(
    showing: Showing,
    reading: Option<Hand>,
    main: Book,
    off: Book,
)
    ensures
        ({
            let read = open_book_of(showing, reading, main, off);
            &&& showing matches Showing::Lectern { book, page } ==> (read matches Ok(told) && {
                &&& told.text_at("source"@) == Some("lectern"@)
                &&& told.items_at("pageComponents"@) == Some(pages_of(book))
                &&& page matches Some(page) ==> told.at("page"@) == Some(Doc::number(page + 1))
                &&& page is None ==> told.at("page"@) == Some(Doc::number(1))
                &&& book.written matches Some(written) ==> told.text_at("title"@) == Some(
                    written.title@,
                )
            })
            &&& !(showing is Lectern) && reading == Some(Hand::Main) ==> (read matches Ok(told)
                && told.text_at("source"@) == Some("hand"@) && told.items_at("pageComponents"@)
                == Some(pages_of(main)) && told.at("page"@) == Some(Doc::number(1)))
            &&& !(showing is Lectern) && reading == Some(Hand::Off) ==> (read matches Ok(told)
                && told.text_at("source"@) == Some("hand"@) && told.items_at("pageComponents"@)
                == Some(pages_of(off)))
            &&& !(showing is Lectern) && reading is None ==> (read matches Err(failure)
                && failure.code == "NO_BOOK"@)
            &&& !(showing is Lectern) && reading is Some ==> (main.written matches Some(written)
                ==> (read matches Ok(told) && told.text_at("author"@) == Some(written.author@)))
        }),
{
    broadcast use {a_field_reads_back, an_empty_object_has_nothing};
    reveal_strlit("source");
    reveal_strlit("page");
    reveal_strlit("pages");
    reveal_strlit("pageComponents");
    reveal_strlit("title");
    reveal_strlit("author");
    reveal_strlit("generation");
    assert("source"@.len() == 6);
    assert("page"@.len() == 4);
    assert("pages"@.len() == 5);
    assert("pageComponents"@.len() == 14);
    assert("title"@.len() == 5);
    assert("author"@.len() == 6);
    assert("generation"@.len() == 10);
    assert("source"@[0] != "author"@[0]);
    assert("pages"@[0] != "title"@[0]);
}

/// The pages of a signed book are the ones that were written, those of an unsigned one what was typed.
pub proof fn the_pages_are_what_was_written(book: Book, i: int)
    ensures
        book.written matches Some(written) ==> pages_of(book) == docs(written.pages@),
        book.written is None ==> (book.writable matches Some(pages) ==> pages_of(book).len()
            == pages@.len() && (0 <= i < pages@.len() ==> pages_of(book)[i] == Doc::Text(
            pages@[i]@,
        ))),
        book.written is None && book.writable is None ==> pages_of(book).len() == 0,
{
}

} // verus!
