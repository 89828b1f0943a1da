//! Classifying a probe response.
//!
//! A probe hands back whatever response header lines it could obtain (none
//! at all when the transport failed or the host never answered). The
//! endpoint counts as `Up` exactly when the first header line is an
//! `HTTP/1.1` status line of class 2xx or 3xx; every other outcome —
//! another status class, a malformed status line, or no line at all — is
//! `Down`. A transport failure therefore yields the same `RawStatus` as an
//! application-level failure: the tracker cannot tell them apart.

use vstd::prelude::*;

use crate::tracker::RawStatus;

verus! {

/// The characters every healthy status line starts with, up to the digit
/// that decides the status class.
pub open spec fn status_line_prefix() -> Seq<char> {
    seq!['H', 'T', 'T', 'P', '/', '1', '.', '1', ' ']
}

/// Whether a header line reports a healthy status: the `HTTP/1.1 ` prefix
/// followed by a digit of class 2 or 3.
pub open spec fn line_reports_up(line: Seq<char>) -> bool {
    &&& line.len() >= 10
    &&& line.take(9) == status_line_prefix()
    &&& (line[9] == '2' || line[9] == '3')
}

/// The classification of a whole response: `Up` exactly when there is a
/// first header line and it reports a healthy status.
pub open spec fn classification(headers: Seq<Seq<char>>) -> RawStatus {
    if headers.len() > 0 && line_reports_up(headers[0]) {
        RawStatus::Up
    } else {
        RawStatus::Down
    }
}

/// Classify the header lines of one probe. An empty `headers` stands for a
/// probe that obtained no response line at all (transport error, timeout,
/// or silence) and is classified `Down`, indistinguishably from a response
/// of an unhealthy status class.
pub fn classify_response(headers: &Vec<String>) -> (status: RawStatus)
    ensures
        status == classification(headers@.map_values(|h: String| h@)),
{
    let ghost lines = headers@.map_values(|h: String| h@);
    if headers.len() == 0 {
        return RawStatus::Down;
    }
    let line: &str = headers[0].as_str();
    assert(line@ == lines[0]);
    if line.unicode_len() < 10 {
        return RawStatus::Down;
    }
    if line.get_char(0) == 'H' && line.get_char(1) == 'T' && line.get_char(2) == 'T'
        && line.get_char(3) == 'P' && line.get_char(4) == '/' && line.get_char(5) == '1'
        && line.get_char(6) == '.' && line.get_char(7) == '1' && line.get_char(8) == ' ' {
        let class = line.get_char(9);
        if class == '2' || class == '3' {
            assert(line@.take(9) =~= status_line_prefix());
            return RawStatus::Up;
        }
        return RawStatus::Down;
    }
    assert(!line_reports_up(lines[0])) by {
        if line@.take(9) == status_line_prefix() {
            assert(line@[0] == 'H' && line@[1] == 'T' && line@[2] == 'T' && line@[3] == 'P'
                && line@[4] == '/' && line@[5] == '1' && line@[6] == '.' && line@[7] == '1'
                && line@[8] == ' ') by {
                assert(forall|i: int| 0 <= i < 9 ==> line@.take(9)[i] == line@[i]);
            }
        }
    }
    RawStatus::Down
}

} // verus!
