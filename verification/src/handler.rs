//! The handler of `GET /books`, as a state machine.
//!
//! Serving one request takes two awaited steps: taking a client from the pool
//! and running the query on it. The service performs them; the handler says
//! which one comes next and what to reply at the end. The service starts in
//! `Phase::Idle` with `Event::Request`, performs each `Action` it is given and
//! reports the outcome as the next `Event`, until the action is `Respond`.

use crate::book::{
    book_json, books_json, encode_books, is_array_of_book_objects,
    lemma_body_is_array_of_book_objects, lemma_body_of_dune, lemma_no_books_is_empty_array,
    BookView,
};
use crate::error::AppError;
use crate::reply::{failure_reply, json_reply, Reply, ReplyView};
use crate::json::array_text;
use crate::row::{book_of_row, books_from_rows, books_of_rows, CellView, Row};
use deadpool::managed::PoolError;
use vstd::prelude::*;

verus! {

/// The one query of the service: every row of `books`, no filter, no order.
/// The columns stand in the order in which a row is read.
pub const BOOKS_QUERY: &'static str = "SELECT id, title, author, publication_date FROM books";

/// How far the handling of a request has come.
#[derive(Debug, Clone, Copy, PartialEq, Eq, Structural)]
pub enum Phase {
    /// Nothing has happened yet.
    Idle,
    /// Waiting for the pool to hand out a client.
    Acquiring,
    /// Waiting for the rows.
    Querying,
    /// The reply has been given.
    Done,
}

/// What the service reports to the handler.
#[derive(Debug)]
pub enum Event {
    /// A request for the list of books came in.
    Request,
    /// The pool has answered: a client is there, or it is not.
    Acquired(Result<(), PoolError<tokio_postgres::Error>>),
    /// The query has ended: with all the rows of the table, or with an error.
    Queried(Result<Vec<Row>, tokio_postgres::Error>),
}

/// What an `Event` means.
pub enum EventView {
    Request,
    Acquired(Result<(), PoolError<tokio_postgres::Error>>),
    Queried(Result<Seq<Seq<CellView>>, tokio_postgres::Error>),
}

impl View for Event {
    type V = EventView;

    open spec fn view(&self) -> EventView {
        match self {
            Event::Request => EventView::Request,
            Event::Acquired(outcome) => EventView::Acquired(*outcome),
            Event::Queried(Ok(rows)) => EventView::Queried(Ok(rows.deep_view())),
            Event::Queried(Err(error)) => EventView::Queried(Err(*error)),
        }
    }
}

/// What the handler asks the service to do next.
#[derive(Debug)]
pub enum Action {
    /// Take a client from the pool, waiting for one if need be.
    Acquire,
    /// Run this query, without parameters, on the client.
    Query(&'static str),
    /// Send this reply. The request is over.
    Respond(Reply),
}

/// What an `Action` means.
pub enum ActionView {
    Acquire,
    Query(Seq<char>),
    Respond(ReplyView),
}

impl View for Action {
    type V = ActionView;

    open spec fn view(&self) -> ActionView {
        match self {
            Action::Acquire => ActionView::Acquire,
            Action::Query(text) => ActionView::Query(text@),
            Action::Respond(reply) => ActionView::Respond(reply@),
        }
    }
}

/// The reply to a request whose query returned `rows`: the books of all the
/// rows as a JSON array, or the failure where a row holds no book.
pub open spec fn reply_for_rows(rows: Seq<Seq<CellView>>) -> ReplyView {
    match books_of_rows(rows) {
        Some(books) => json_reply(books_json(books)),
        None => failure_reply(),
    }
}

/// The transition of the handler: the phase that follows and the action to
/// perform, or `None` where `event` is not the one that `phase` waits for.
pub open spec fn next(phase: Phase, event: EventView) -> Option<(Phase, ActionView)> {
    match (phase, event) {
        (Phase::Idle, EventView::Request) => Some((Phase::Acquiring, ActionView::Acquire)),
        (Phase::Acquiring, EventView::Acquired(Ok(_))) => Some(
            (Phase::Querying, ActionView::Query(BOOKS_QUERY@)),
        ),
        (Phase::Acquiring, EventView::Acquired(Err(_))) => Some(
            (Phase::Done, ActionView::Respond(failure_reply())),
        ),
        (Phase::Querying, EventView::Queried(Ok(rows))) => Some(
            (Phase::Done, ActionView::Respond(reply_for_rows(rows))),
        ),
        (Phase::Querying, EventView::Queried(Err(_))) => Some(
            (Phase::Done, ActionView::Respond(failure_reply())),
        ),
        _ => None,
    }
}

/// The view of what `step` returns.
pub open spec fn step_view(result: Option<(Phase, Action)>) -> Option<(Phase, ActionView)> {
    match result {
        Some((phase, action)) => Some((phase, action@)),
        None => None,
    }
}

/// Replies to a query that returned `rows`.
pub fn respond_to_rows(rows: &Vec<Row>) -> (reply: Reply)
    ensures
        reply@ == reply_for_rows(rows.deep_view()),
{
    match books_from_rows(rows) {
        Some(books) => Reply::json(encode_books(&books)),
        None => Reply::failure(),
    }
}

/// Takes one step of the handler: from the phase it is in and the event that
/// the service reports, to the phase that follows and the action to perform.
/// An event that the phase does not wait for is refused with `None`.
pub fn step(phase: Phase, event: Event) -> (result: Option<(Phase, Action)>)
    ensures
        step_view(result) == next(phase, event@),
{
    match (phase, event) {
        (Phase::Idle, Event::Request) => Some((Phase::Acquiring, Action::Acquire)),
        (Phase::Acquiring, Event::Acquired(Ok(_))) => Some(
            (Phase::Querying, Action::Query(BOOKS_QUERY)),
        ),
        (Phase::Acquiring, Event::Acquired(Err(error))) => {
            let error = AppError::from(error);
            Some((Phase::Done, Action::Respond(error.to_reply())))
        },
        (Phase::Querying, Event::Queried(Ok(rows))) => Some(
            (Phase::Done, Action::Respond(respond_to_rows(&rows))),
        ),
        (Phase::Querying, Event::Queried(Err(error))) => {
            let error = AppError::from(error);
            Some((Phase::Done, Action::Respond(error.to_reply())))
        },
        _ => None,
    }
}

/// What a whole run of the handler does: the phase it ends in and the
/// actions it asks for, one for each event, or `None` where one of the events
/// comes out of turn.
pub open spec fn run(phase: Phase, events: Seq<EventView>) -> Option<(Phase, Seq<ActionView>)>
    decreases events.len(),
{
    if events.len() == 0 {
        Some((phase, Seq::empty()))
    } else {
        match next(phase, events[0]) {
            Some((following, action)) => match run(following, events.skip(1)) {
                Some((last, actions)) => Some((last, seq![action] + actions)),
                None => None,
            },
            None => None,
        }
    }
}

/// With no rows in the table the request is answered with 200 and the body
/// `[]`.
pub proof fn lemma_empty_table_replies_empty_array()
    ensures
        reply_for_rows(Seq::empty()) == json_reply("[]"@),
        json_reply("[]"@).status == 200,
        run(
            Phase::Idle,
            seq![
                EventView::Request,
                EventView::Acquired(Ok(())),
                EventView::Queried(Ok(Seq::empty())),
            ],
        ) == Some(
            (
                Phase::Done,
                seq![
                    ActionView::Acquire,
                    ActionView::Query(BOOKS_QUERY@),
                    ActionView::Respond(json_reply("[]"@)),
                ],
            ),
        ),
{
    let rows = Seq::<Seq<CellView>>::empty();
    let books = rows.map_values(|row: Seq<CellView>| book_of_row(row).unwrap());
    assert(books =~= Seq::<BookView>::empty());
    lemma_no_books_is_empty_array();
    lemma_served_request(rows);
}

/// Where every row holds a book, the reply is 200 and its body is a JSON
/// array of exactly one object for each row, each with the four members of a
/// book. The element at a position is the object of the book that the row at
/// that position holds: no row is left out, none is used twice, nothing is
/// added, and the order of the rows is kept.
pub proof fn lemma_rows_reply_one_object_each(rows: Seq<Seq<CellView>>)
    requires
        forall|i: int| 0 <= i < rows.len() ==> book_of_row(#[trigger] rows[i]) is Some,
    ensures
        reply_for_rows(rows).status == 200,
        reply_for_rows(rows).content_type == Some("application/json"@),
        is_array_of_book_objects(reply_for_rows(rows).body, rows.len()),
        reply_for_rows(rows).body == array_text(
            Seq::new(rows.len(), |i: int| book_json(book_of_row(rows[i]).unwrap())),
        ),
{
    let books = books_of_rows(rows).unwrap();
    lemma_body_is_array_of_book_objects(books);
    assert(books.map_values(|book: BookView| book_json(book)) =~= Seq::new(
        rows.len(),
        |i: int| book_json(book_of_row(rows[i]).unwrap()),
    ));
}

/// Where one row holds no book, no part of the table is sent: the reply is
/// the failure.
pub proof fn lemma_spoilt_row_fails_the_request(rows: Seq<Seq<CellView>>, i: int)
    requires
        0 <= i < rows.len(),
        book_of_row(rows[i]) is None,
    ensures
        reply_for_rows(rows) == failure_reply(),
{
}

/// The failure is no success and carries no list: its status is outside
/// 200..299, and its body is not a JSON array, whatever the elements.
pub proof fn lemma_failure_carries_no_array(items: Seq<Seq<char>>)
    ensures
        !(200 <= failure_reply().status < 300),
        failure_reply().body.len() == 0,
        failure_reply().body != array_text(items),
{
    reveal_strlit("[");
    reveal_strlit("]");
    assert(array_text(items).len() >= 2);
}

/// When the pool cannot supply a client, whatever the reason, the request
/// ends there: the query is never run, and the reply is the failure, which
/// has a status outside 200..299 and an empty body.
pub proof fn lemma_pool_failure_ends_the_request(error: PoolError<tokio_postgres::Error>)
    ensures
        run(Phase::Idle, seq![EventView::Request, EventView::Acquired(Err(error))]) == Some(
            (Phase::Done, seq![ActionView::Acquire, ActionView::Respond(failure_reply())]),
        ),
        !(200 <= failure_reply().status < 300),
        failure_reply().body.len() == 0,
{
    let events = seq![EventView::Request, EventView::Acquired(Err(error))];
    let tail = events.skip(1);
    assert(tail.skip(1) =~= Seq::<EventView>::empty());
    assert(run(Phase::Done, tail.skip(1)) == Some((Phase::Done, Seq::<ActionView>::empty())));
    assert(run(Phase::Acquiring, tail) == Some(
        (Phase::Done, seq![ActionView::Respond(failure_reply())] + Seq::<ActionView>::empty()),
    ));
    assert(seq![ActionView::Acquire] + (seq![ActionView::Respond(failure_reply())]
        + Seq::<ActionView>::empty()) =~= seq![
        ActionView::Acquire,
        ActionView::Respond(failure_reply()),
    ]);
}

/// When the query fails, whatever the reason, the reply is the failure too:
/// the client is not told which of the two went wrong, and nothing is tried
/// again.
pub proof fn lemma_query_failure_ends_the_request(error: tokio_postgres::Error)
    ensures
        run(
            Phase::Idle,
            seq![EventView::Request, EventView::Acquired(Ok(())), EventView::Queried(Err(error))],
        ) == Some(
            (
                Phase::Done,
                seq![
                    ActionView::Acquire,
                    ActionView::Query(BOOKS_QUERY@),
                    ActionView::Respond(failure_reply()),
                ],
            ),
        ),
{
    lemma_run_with_client(Err(error), failure_reply());
}

/// A request that gets its client and its rows takes three steps: take a
/// client, run the one query, reply with what the rows hold.
pub proof fn lemma_served_request(rows: Seq<Seq<CellView>>)
    ensures
        run(
            Phase::Idle,
            seq![EventView::Request, EventView::Acquired(Ok(())), EventView::Queried(Ok(rows))],
        ) == Some(
            (
                Phase::Done,
                seq![
                    ActionView::Acquire,
                    ActionView::Query(BOOKS_QUERY@),
                    ActionView::Respond(reply_for_rows(rows)),
                ],
            ),
        ),
{
    lemma_run_with_client(Ok(rows), reply_for_rows(rows));
}

/// The request whose client is there and whose query ends with `outcome`:
/// three steps, the last of them the reply that the handler gives to
/// `outcome`.
proof fn lemma_run_with_client(
    outcome: Result<Seq<Seq<CellView>>, tokio_postgres::Error>,
    reply: ReplyView,
)
    requires
        next(Phase::Querying, EventView::Queried(outcome)) == Some(
            (Phase::Done, ActionView::Respond(reply)),
        ),
    ensures
        run(
            Phase::Idle,
            seq![EventView::Request, EventView::Acquired(Ok(())), EventView::Queried(outcome)],
        ) == Some(
            (
                Phase::Done,
                seq![
                    ActionView::Acquire,
                    ActionView::Query(BOOKS_QUERY@),
                    ActionView::Respond(reply),
                ],
            ),
        ),
{
    let events =
        seq![EventView::Request, EventView::Acquired(Ok(())), EventView::Queried(outcome)];
    let two = events.skip(1);
    let one = two.skip(1);
    assert(one.skip(1) =~= Seq::<EventView>::empty());
    let respond = ActionView::Respond(reply);
    let query = ActionView::Query(BOOKS_QUERY@);
    assert(run(Phase::Done, one.skip(1)) == Some((Phase::Done, Seq::<ActionView>::empty())));
    assert(run(Phase::Querying, one) == Some(
        (Phase::Done, seq![respond] + Seq::<ActionView>::empty()),
    ));
    assert(run(Phase::Acquiring, two) == Some(
        (Phase::Done, seq![query] + (seq![respond] + Seq::<ActionView>::empty())),
    ));
    assert(seq![ActionView::Acquire] + (seq![query] + (seq![respond]
        + Seq::<ActionView>::empty())) =~= seq![ActionView::Acquire, query, respond]);
}

/// A worked example: with the one row `(1, Dune, Frank Herbert, 1965-08-01)`
/// in the table, the request is answered with 200 and that book as the only
/// element of the array.
pub proof fn lemma_request_for_dune()
    ensures
        run(
            Phase::Idle,
            seq![
                EventView::Request,
                EventView::Acquired(Ok(())),
                EventView::Queried(
                    Ok(
                        seq![
                            seq![
                                CellView::Int(1),
                                CellView::Text("Dune"@),
                                CellView::Text("Frank Herbert"@),
                                CellView::Text("1965-08-01"@),
                            ],
                        ],
                    ),
                ),
            ],
        ) == Some(
            (
                Phase::Done,
                seq![
                    ActionView::Acquire,
                    ActionView::Query(BOOKS_QUERY@),
                    ActionView::Respond(
                        json_reply(
                            "[{\"id\":1,\"title\":\"Dune\",\"author\":\"Frank Herbert\",\"publication_date\":\"1965-08-01\"}]"@,
                        ),
                    ),
                ],
            ),
        ),
{
    let row = seq![
        CellView::Int(1),
        CellView::Text("Dune"@),
        CellView::Text("Frank Herbert"@),
        CellView::Text("1965-08-01"@),
    ];
    let rows = seq![row];
    let book = BookView {
        id: 1,
        title: "Dune"@,
        author: "Frank Herbert"@,
        publication_date: "1965-08-01"@,
    };
    assert(book_of_row(row) == Some(book));
    assert(rows.map_values(|row: Seq<CellView>| book_of_row(row).unwrap()) =~= seq![book]);
    lemma_body_of_dune();
    lemma_served_request(rows);
}

/// Every run from `Idle` is short and straight: at most three events are
/// taken, a client is asked for once and the query is run once (nothing is
/// tried again), and the run has reached `Done` exactly when its last action
/// is the reply.
pub proof fn lemma_runs_from_idle(events: Seq<EventView>)
    requires
        run(Phase::Idle, events) is Some,
    ensures
        events.len() <= 3,
        ({
            let (last, actions) = run(Phase::Idle, events).unwrap();
            &&& actions.len() == events.len()
            &&& forall|i: int| 0 <= i < actions.len() ==> (actions[i] is Acquire <==> i == 0)
            &&& forall|i: int|
                0 <= i < actions.len() ==> (actions[i] is Respond <==> i == actions.len() - 1
                    && last == Phase::Done)
            &&& forall|i: int|
                0 <= i < actions.len() && actions[i] is Query ==> i == 1 && actions[i]
                    == ActionView::Query(BOOKS_QUERY@)
        }),
{
    lemma_run_shape(Phase::Idle, events);
}

/// How many more events a phase can take before the reply is out.
pub open spec fn steps_left(phase: Phase) -> nat {
    match phase {
        Phase::Idle => 3,
        Phase::Acquiring => 2,
        Phase::Querying => 1,
        Phase::Done => 0,
    }
}

proof fn lemma_run_shape(phase: Phase, events: Seq<EventView>)
    requires
        run(phase, events) is Some,
    ensures
        events.len() <= steps_left(phase),
        ({
            let (last, actions) = run(phase, events).unwrap();
            &&& actions.len() == events.len()
            &&& steps_left(last) <= steps_left(phase)
            &&& events.len() == 0 ==> last == phase
            &&& forall|i: int|
                0 <= i < actions.len() ==> (actions[i] is Acquire <==> i == 0 && phase
                    == Phase::Idle)
            &&& forall|i: int|
                0 <= i < actions.len() ==> (actions[i] is Respond <==> i == actions.len() - 1
                    && last == Phase::Done)
            &&& forall|i: int|
                0 <= i < actions.len() && actions[i] is Query ==> i + 2 == steps_left(phase)
                    && actions[i] == ActionView::Query(BOOKS_QUERY@)
        }),
    decreases events.len(),
{
    if events.len() > 0 {
        let (following, action) = next(phase, events[0]).unwrap();
        lemma_run_shape(following, events.skip(1));
        let (last, rest) = run(following, events.skip(1)).unwrap();
        let actions = seq![action] + rest;
        assert(actions[0] == action);
        assert forall|i: int| 1 <= i < actions.len() implies actions[i] == rest[i - 1] by {}
    }
}

} // verus!
