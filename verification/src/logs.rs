//! What a caller asks of an execution log.
use crate::aggregate::{aggregate_stream_events, aggregated};
use crate::json::{trees, value_tree, JsonTree};
use crate::log_laws::{law_no_log_no_messages, law_page_size};
use crate::log_lines::{log_events, read_stream_events};
use crate::page::{page_of, paginate, LogsQuery, LogsResponse};
use crate::text::maybe_text;
use vstd::prelude::*;

verus! {

/// The text of a log; empty where there is none.
pub open spec fn log_text(raw: Option<Seq<char>>) -> Seq<char> {
    match raw {
        Some(text) => text,
        None => Seq::empty(),
    }
}

/// The messages of a log.
pub open spec fn log_messages(raw: Option<Seq<char>>) -> Seq<JsonTree> {
    aggregated(log_events(log_text(raw)))
}

/// The text that the read of a log has found. A read that failed has found none.
pub open spec fn log_read<E>(read: Result<Option<String>, E>) -> Option<Seq<char>> {
    match read {
        Ok(found) => maybe_text(found),
        Err(_) => None,
    }
}

/// The log that a read has found. A read that failed counts as one that found no log,
/// and is no error.
pub fn log_or_none<E>(read: Result<Option<String>, E>) -> (raw: Option<String>)
    ensures
        maybe_text(raw) == log_read(read),
{
    match read {
        Ok(found) => found,
        Err(_) => None,
    }
}

/// The messages of a log. Where there is no log, there are none.
pub fn read_messages(raw: Option<String>) -> (messages: Vec<serde_json::Value>)
    ensures
        trees(messages@) == log_messages(maybe_text(raw)),
{
    let text = match raw {
        Some(text) => text,
        None => String::new(),
    };
    let events = read_stream_events(text.as_str());
    aggregate_stream_events(events.as_slice())
}

/// The latest message of the log that was read, if it holds any. A read that failed
/// gives none.
pub fn latest_turn<E>(read: Result<Option<String>, E>) -> (turn: Option<serde_json::Value>)
    ensures
        match turn {
            Some(message) => log_messages(log_read(read)).len() > 0 && value_tree(message)
                == log_messages(log_read(read)).last(),
            None => log_messages(log_read(read)).len() == 0,
        },
        read is Err ==> turn is None,
{
    proof {
        law_no_log_no_messages();
    }
    let mut messages = read_messages(log_or_none(read));
    let ghost all = messages@;
    assert(trees(all).len() == all.len());
    messages.pop()
}

/// A page of the messages of the log that was read. A read that failed gives an empty
/// page of no messages.
pub fn logs_page<E>(read: Result<Option<String>, E>, query: &LogsQuery) -> (response: LogsResponse)
    requires
        query.spec_in_range(),
    ensures
        response.total == log_messages(log_read(read)).len(),
        response.page == query.spec_page(),
        response.limit == query.spec_limit(),
        trees(response.messages@) == page_of(
            log_messages(log_read(read)),
            query.spec_page() as int,
            query.spec_limit() as int,
        ),
        read is Err ==> response.total == 0 && response.messages@.len() == 0,
        query.limit is None ==> response.limit == 20,
        query.limit matches Some(n) ==> response.limit == if n < 1 {
            1
        } else if n > 100 {
            100
        } else {
            n
        },
        query.page is None ==> response.page == 1,
        query.page matches Some(p) ==> response.page == if p < 1 {
            1
        } else {
            p
        },
{
    let messages = read_messages(log_or_none(read));
    let ghost all = messages@;
    assert(trees(all).len() == all.len());
    let response = paginate(messages, query);
    assert(trees(response.messages@) =~= page_of(
        trees(all),
        query.spec_page() as int,
        query.spec_limit() as int,
    ));
    proof {
        law_no_log_no_messages();
        law_page_size(all, query.spec_page() as int, query.spec_limit() as int);
    }
    response
}

/// Whether soft-deleted processes are shown: only where that is asked for.
pub fn shows_soft_deleted(asked: Option<bool>) -> (shown: bool)
    ensures
        shown == (asked == Some(true)),
{
    match asked {
        Some(show) => show,
        None => false,
    }
}

} // verus!
