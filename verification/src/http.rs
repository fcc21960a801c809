//! The two localhost HTTP exchanges with the daemon: `GET /health`, whose
//! status line says whether the daemon is up, and `GET /version`, whose JSON
//! body names the API version.
use vstd::prelude::*;

use crate::text::{
    chars_of, contains, find, find_from, find_in, lemma_find, lemma_find_from,
    lemma_find_from_first, lemma_occurs_at_chars, matches_at, occurs_at, starts_with,
};

verus! {

/// The request line and headers of a `GET` for `path`: HTTP/1.0 with
/// `Connection: close`, so that the daemon closes the stream after its reply.
pub open spec fn get_request(path: Seq<char>) -> Seq<char> {
    "GET "@ + path + " HTTP/1.0\r\nHost: 127.0.0.1\r\nConnection: close\r\n\r\n"@
}

/// The text of a `GET` request for `path` on the local daemon.
pub fn http_get_request(path: &str) -> (r: String)
    ensures
        r@ == get_request(path@),
{
    let mut r = String::from_str("GET ");
    r.append(path);
    r.append(" HTTP/1.0\r\nHost: 127.0.0.1\r\nConnection: close\r\n\r\n");
    r
}

/// The status line of a reply head: everything before the first `\r\n`, or
/// the whole head when it holds none.
pub open spec fn status_line(head: Seq<char>) -> Seq<char> {
    match find(head, "\r\n"@) {
        Some(e) => head.subrange(0, e),
        None => head,
    }
}

/// The status code of a status line: the text after its first space, up to
/// the next space or the end of the line; nothing when it has no space.
pub open spec fn status_code(line: Seq<char>) -> Option<Seq<char>> {
    match find(line, " "@) {
        None => None,
        Some(i) => Some(
            match find_from(line, " "@, i + 1) {
                Some(j) => line.subrange(i + 1, j),
                None => line.subrange(i + 1, line.len() as int),
            },
        ),
    }
}

/// A reply head that reports a healthy daemon: an HTTP/1.x status line whose
/// status code is `200`.
pub open spec fn healthy_head(head: Seq<char>) -> bool {
    starts_with(head, "HTTP/1."@) && status_code(status_line(head)) == Some("200"@)
}

/// Whether the start of the daemon's reply to `GET /health` (at most the first
/// read's worth, decoded) reports status 200.
pub fn health_ok(head: &str) -> (r: bool)
    ensures
        r == healthy_head(head@),
{
    let cs = chars_of(head);
    let prefix = chars_of("HTTP/1.");
    if !matches_at(&cs, &prefix, 0) {
        return false;
    }
    let crlf = chars_of("\r\n");
    let line_end = match find_in(&cs, &crlf, 0) {
        Some(e) => e,
        None => cs.len(),
    };
    proof {
        lemma_find(cs@, crlf@);
    }
    let line = chars_of(head.substring_char(0, line_end));
    assert(line@ == status_line(head@)) by {
        if find(head@, "\r\n"@) is None {
            assert(head@.subrange(0, head@.len() as int) =~= head@);
        }
    }
    let space = chars_of(" ");
    proof {
        reveal_strlit(" ");
    }
    let first_space = find_in(&line, &space, 0);
    proof {
        lemma_find(line@, space@);
    }
    let n = line.len();
    let code_start = match first_space {
        Some(i) => {
            assert(occurs_at(line@, space@, i as int));
            i + 1
        },
        None => return false,
    };
    let code_end = match find_in(&line, &space, code_start) {
        Some(j) => j,
        None => line.len(),
    };
    proof {
        lemma_find_from(line@, space@, code_start as int);
    }
    assert(code_start <= code_end <= n);
    let ok = chars_of("200");
    let r = code_end - code_start == ok.len() && matches_at(&line, &ok, code_start);
    proof {
        let code = line@.subrange(code_start as int, code_end as int);
        assert(status_code(line@) == Some(code));
        if r {
            assert(code =~= line@.subrange(code_start as int, code_start + ok@.len()));
        }
        if code == ok@ {
            assert(line@.subrange(code_start as int, code_start + ok@.len()) =~= code);
        }
    }
    r
}

/// The text that introduces the version in the daemon's `/version` body.
pub open spec fn version_key() -> Seq<char> {
    "\"api_version\":\""@
}

/// The closing quote of the version.
pub open spec fn quote() -> Seq<char> {
    "\""@
}

/// The API version that a `/version` reply names: the text from just after
/// the first `"api_version":"` up to the next `"`, if both are there.
pub open spec fn api_version_of(reply: Seq<char>) -> Option<Seq<char>> {
    match find(reply, version_key()) {
        None => None,
        Some(i) => {
            let start = i + version_key().len();
            match find_from(reply, quote(), start) {
                None => None,
                Some(end) => Some(reply.subrange(start, end)),
            }
        },
    }
}

/// The API version named in the daemon's reply to `GET /version` (the whole
/// reply, headers and body).
pub fn api_version(reply: &str) -> (r: Option<String>)
    ensures
        match r {
            Some(v) => api_version_of(reply@) == Some(v@),
            None => api_version_of(reply@) is None,
        },
{
    let cs = chars_of(reply);
    let key = chars_of("\"api_version\":\"");
    let quote_mark = chars_of("\"");
    let i = match find_in(&cs, &key, 0) {
        Some(i) => i,
        None => return None,
    };
    proof {
        lemma_find(cs@, key@);
        assert(occurs_at(cs@, key@, i as int));
    }
    let total = cs.len();
    assert(i + key.len() <= total);
    let start = i + key.len();
    let end = match find_in(&cs, &quote_mark, start) {
        Some(e) => e,
        None => return None,
    };
    proof {
        lemma_find_from(cs@, quote_mark@, start as int);
    }
    Some(String::from_str(reply.substring_char(start, end)))
}

/// A reply in which the version key first appears right after `prefix`
/// (the key does not occur in `prefix` followed by all but the last character
/// of the key, so `prefix` may hold quotes and other JSON fields), followed by
/// a version without a double quote and the closing quote, names exactly that
/// version, whatever follows.
pub proof fn lemma_api_version_reads_back(prefix: Seq<char>, version: Seq<char>, rest: Seq<char>)
    requires
        !contains(prefix + version_key().drop_last(), version_key()),
        !version.contains('"'),
    ensures
        api_version_of(prefix + version_key() + version + quote() + rest) == Some(version),
{
    reveal_strlit("\"api_version\":\"");
    reveal_strlit("\"");
    let key = version_key();
    let reply = prefix + key + version + quote() + rest;
    let p = prefix.len() as int;
    let head = prefix + key.drop_last();
    assert(reply.subrange(p, p + key.len()) =~= key);
    assert forall|j: int| 0 <= j < p implies !occurs_at(reply, key, j) by {
        if occurs_at(reply, key, j) {
            assert(reply.subrange(j, j + key.len()) =~= head.subrange(j, j + key.len()));
            assert(occurs_at(head, key, j));
        }
    }
    lemma_find_from_first(reply, key, 0, p);
    let start = p + key.len();
    let end = start + version.len();
    assert(reply.subrange(end, end + 1) =~= quote());
    assert forall|j: int| start <= j < end implies !occurs_at(reply, quote(), j) by {
        assert(reply[j] == version[j - start]);
        if occurs_at(reply, quote(), j) {
            assert(reply.subrange(j, j + 1)[0] == quote()[0]);
        }
    }
    lemma_find_from_first(reply, quote(), start, end);
    assert(reply.subrange(start, end) =~= version);
}

/// A reply head whose first line is an HTTP/1.x status line with status code
/// exactly `200`, where `i` is the line's first space: the head starts with
/// `HTTP/1.`, no space and no line break (`\r\n`) comes before `i`, the three
/// characters after it are `200`, and they are followed by a space, a line
/// break, or the end of what was read.
pub open spec fn status_200_at(head: Seq<char>, i: int) -> bool {
    &&& 7 <= head.len()
    &&& head.subrange(0, 7) == seq!['H', 'T', 'T', 'P', '/', '1', '.']
    &&& 0 <= i && i + 4 <= head.len()
    &&& head[i] == ' '
    &&& forall|j: int| 0 <= j < i ==> head[j] != ' '
    &&& forall|j: int| 0 <= j < i ==> !occurs_at(head, seq!['\r', '\n'], j)
    &&& head[i + 1] == '2' && head[i + 2] == '0' && head[i + 3] == '0'
    &&& (i + 4 == head.len() || head[i + 4] == ' ' || (i + 5 < head.len() && head[i + 4] == '\r'
        && head[i + 5] == '\n'))
}

/// A head is healthy exactly when its status line reports code `200`: any
/// other code (`500`, `404`, `2000`, ...), a code elsewhere than right after
/// the first space, or a line that is not HTTP/1.x gives false.
pub proof fn lemma_healthy_head_is_status_200(head: Seq<char>)
    ensures
        healthy_head(head) <==> exists|i: int| status_200_at(head, i),
{
    reveal_strlit("HTTP/1.");
    reveal_strlit("\r\n");
    reveal_strlit(" ");
    reveal_strlit("200");
    let crlf = "\r\n"@;
    let sp = " "@;
    let two = "200"@;
    assert(sp =~= seq![' ']);
    assert(two =~= seq!['2', '0', '0']);
    assert(crlf =~= seq!['\r', '\n']);
    assert("HTTP/1."@ =~= seq!['H', 'T', 'T', 'P', '/', '1', '.']);
    lemma_occurs_at_chars(head, "HTTP/1."@, 0);
    if 7 <= head.len() {
        assert(head.subrange(0, 7) == seq!['H', 'T', 'T', 'P', '/', '1', '.'] <==> occurs_at(
            head,
            "HTTP/1."@,
            0,
        ));
    }
    lemma_find(head, crlf);
    let line = status_line(head);
    assert(line.len() <= head.len());
    assert(forall|k: int| 0 <= k < line.len() ==> line[k] == head[k]);
    lemma_find(line, sp);
    if healthy_head(head) {
        let i = find(line, sp)->0;
        lemma_occurs_at_chars(line, sp, i);
        assert(sp[0] == ' ');
        assert(line[i] == ' ');
        assert forall|j: int| 0 <= j < i implies head[j] != ' ' by {
            lemma_occurs_at_chars(line, sp, j);
        }
        assert(crlf =~= seq!['\r', '\n']);
        assert forall|j: int| 0 <= j < i implies !occurs_at(head, seq!['\r', '\n'], j) by {
            lemma_occurs_at_chars(head, crlf, j);
        }
        lemma_find_from(line, sp, i + 1);
        let code = status_code(line)->0;
        assert(code == two);
        match find_from(line, sp, i + 1) {
            Some(j) => {
                lemma_occurs_at_chars(line, sp, j);
                assert(code == line.subrange(i + 1, j));
                assert(j == i + 4);
                assert(head[i + 1] == code[0]);
                assert(head[i + 2] == code[1]);
                assert(head[i + 3] == code[2]);
            },
            None => {
                assert(code == line.subrange(i + 1, line.len() as int));
                assert(line.len() == i + 4);
                assert(head[i + 1] == code[0]);
                assert(head[i + 2] == code[1]);
                assert(head[i + 3] == code[2]);
                if let Some(e) = find(head, crlf) {
                    lemma_occurs_at_chars(head, crlf, e);
                }
            },
        }
        assert(status_200_at(head, i));
    }
    if exists|i: int| status_200_at(head, i) {
        let i = choose|i: int| status_200_at(head, i);
        assert(crlf =~= seq!['\r', '\n']);
        // The line break, if any, comes after the code.
        if let Some(e) = find(head, crlf) {
            lemma_occurs_at_chars(head, crlf, e);
            if e < i + 4 {
                if e < i {
                } else {
                    assert(head[e] != '\r');
                }
            }
            assert(e >= i + 4);
        }
        assert(line.len() >= i + 4);
        lemma_occurs_at_chars(line, sp, i);
        assert forall|j: int| 0 <= j < i implies !occurs_at(line, sp, j) by {
            lemma_occurs_at_chars(line, sp, j);
            assert(sp[0] == ' ');
            assert(line[j] == head[j]);
        }
        lemma_find_from_first(line, sp, 0, i);
        let code_expected = line.subrange(i + 1, i + 4);
        assert(code_expected =~= two);
        assert forall|j: int| i + 1 <= j < i + 4 implies !occurs_at(line, sp, j) by {
            lemma_occurs_at_chars(line, sp, j);
            assert(sp[0] == ' ');
            assert(line[j] == head[j]);
        }
        lemma_find_from(line, sp, i + 1);
        if line.len() == i + 4 {
            assert(line.subrange(i + 1, line.len() as int) == code_expected);
            if let Some(k) = find_from(line, sp, i + 1) {
                lemma_occurs_at_chars(line, sp, k);
            }
        } else {
            if head[i + 4] != ' ' {
                assert(i + 5 < head.len() && head[i + 4] == '\r' && head[i + 5] == '\n');
                lemma_occurs_at_chars(head, crlf, i + 4);
                assert(find(head, crlf) is Some);
                assert(false);
            }
            lemma_occurs_at_chars(line, sp, i + 4);
            lemma_find_from_first(line, sp, i + 1, i + 4);
        }
        assert(status_code(line) == Some(two));
    }
}

/// A reply without the version key names no version, and neither does one
/// whose first key is not followed by a closing quote.
pub proof fn lemma_api_version_absent(prefix: Seq<char>, tail: Seq<char>, reply: Seq<char>)
    requires
        !contains(prefix + version_key().drop_last(), version_key()),
        !tail.contains('"'),
    ensures
        !contains(reply, version_key()) ==> api_version_of(reply) is None,
        api_version_of(prefix + version_key() + tail) is None,
{
    reveal_strlit("\"api_version\":\"");
    reveal_strlit("\"");
    lemma_find(reply, version_key());
    let key = version_key();
    let r = prefix + key + tail;
    let p = prefix.len() as int;
    let head = prefix + key.drop_last();
    assert(r.subrange(p, p + key.len()) =~= key);
    assert forall|j: int| 0 <= j < p implies !occurs_at(r, key, j) by {
        if occurs_at(r, key, j) {
            assert(r.subrange(j, j + key.len()) =~= head.subrange(j, j + key.len()));
            assert(occurs_at(head, key, j));
        }
    }
    lemma_find_from_first(r, key, 0, p);
    let start = p + key.len();
    lemma_find_from(r, quote(), start);
    if let Some(e) = find_from(r, quote(), start) {
        assert(r.subrange(e, e + 1)[0] == r[e]);
        assert(r[e] == tail[e - start]);
        assert(quote()[0] == '"');
        assert(tail.contains('"'));
    }
}

} // verus!
