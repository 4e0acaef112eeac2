//! The fields of an SMS row that the CSV output writes.
use vstd::prelude::*;
use crate::frame::SqlValue;

verus! {

/// One message taken from the parameters of an `INSERT INTO sms` statement.
pub struct Message {
    /// Address of receiver or sender.
    pub address: String,
    /// Message text.
    pub body: String,
    /// Time sent, in whole seconds since the Unix epoch.
    pub date_sent: i64,
    /// Time received, in whole seconds since the Unix epoch.
    pub date_received: i64,
}

/// Position of the address among the statement's parameters.
pub const PARAM_ADDRESS: usize = 2;
/// Position of the time sent, in milliseconds.
pub const PARAM_DATE_SENT: usize = 5;
/// Position of the time received, in milliseconds.
pub const PARAM_DATE_RECEIVED: usize = 6;
/// Position of the message text.
pub const PARAM_BODY: usize = 14;

/// The text of a parameter, empty unless it is a text value.
pub open spec fn text_or_empty(v: SqlValue) -> Seq<char> {
    match v {
        SqlValue::Text(t) => t@,
        _ => Seq::empty(),
    }
}

/// Milliseconds truncated to whole seconds, toward zero.
pub open spec fn seconds_of_millis(ms: i64) -> int {
    if ms >= 0 {
        ms / 1000
    } else {
        -((-ms) / 1000)
    }
}

/// The seconds of a millisecond timestamp parameter, zero unless it is an integer.
pub open spec fn seconds_or_zero(v: SqlValue) -> int {
    match v {
        SqlValue::Integer(ms) => seconds_of_millis(ms),
        _ => 0,
    }
}

fn text_of(v: &SqlValue) -> (r: String)
    ensures
        r@ == text_or_empty(*v),
{
    match v {
        SqlValue::Text(t) => t.clone(),
        _ => String::new(),
    }
}

fn seconds_of(v: &SqlValue) -> (r: i64)
    ensures
        r == seconds_or_zero(*v),
{
    match v {
        SqlValue::Integer(ms) => {
            let ms = *ms;
            if ms >= 0 {
                ms / 1000
            } else if ms == i64::MIN {
                -((-(ms + 1000)) / 1000 + 1)
            } else {
                -((-ms) / 1000)
            }
        },
        _ => 0,
    }
}

impl Message {
    /// Reads the message fields from the parameters of an SMS row.
    pub fn new(sql_parameter: &[SqlValue]) -> (r: Message)
        requires
            sql_parameter@.len() > PARAM_BODY,
        ensures
            r.address@ == text_or_empty(sql_parameter@[PARAM_ADDRESS as int]),
            r.body@ == text_or_empty(sql_parameter@[PARAM_BODY as int]),
            r.date_sent == seconds_or_zero(sql_parameter@[PARAM_DATE_SENT as int]),
            r.date_received == seconds_or_zero(sql_parameter@[PARAM_DATE_RECEIVED as int]),
    {
        Message {
            address: text_of(&sql_parameter[PARAM_ADDRESS]),
            body: text_of(&sql_parameter[PARAM_BODY]),
            date_sent: seconds_of(&sql_parameter[PARAM_DATE_SENT]),
            date_received: seconds_of(&sql_parameter[PARAM_DATE_RECEIVED]),
        }
    }
}

} // verus!
