//! A minimal client for the container runtime's management API: it writes
//! the request frames, reads the response frames, and filters the listed
//! containers. One connection carries one request; the connection itself is
//! the caller's.
use vstd::prelude::*;
use crate::http::{
    after, copy_range, crlf, crlf_vec, crlfcrlf, dechunk, find_from, find_pat, has_chunked_line,
    lemma_find_shift, parse_hex, parse_status, raw_body, response_body, response_status,
};
use crate::text::{contains_seq, str_contains, str_eq};
use crate::types::{label_value, find_label, Container};

verus! {

/// Why a call to the runtime failed.
pub enum EngineError {
    /// The socket could not be reached or the exchange broke off.
    Connection(String),
    /// The runtime answered with a status outside 200..=299.
    Api(u16, Vec<u8>),
    /// The response or its body could not be read.
    Decode(String),
}

pub struct DockerClient {
    socket_path: String,
}

/// A request frame without a body.
pub open spec fn request_text(method: Seq<char>, endpoint: Seq<char>) -> Seq<char> {
    method + " "@ + endpoint + " HTTP/1.1\r\nHost: localhost\r\nConnection: close\r\n\r\n"@
}

/// A POST frame with an empty JSON body.
pub open spec fn post_text(endpoint: Seq<char>) -> Seq<char> {
    "POST "@ + endpoint
        + " HTTP/1.1\r\nHost: localhost\r\nContent-Type: application/json\r\nContent-Length: 0\r\nConnection: close\r\n\r\n"@
}

pub open spec fn list_endpoint(all: bool) -> Seq<char> {
    if all {
        "/containers/json?all=true"@
    } else {
        "/containers/json"@
    }
}

pub open spec fn remove_endpoint(id: Seq<char>, force: bool) -> Seq<char> {
    "/containers/"@ + id + if force {
        "?force=true"@
    } else {
        "?force=false"@
    }
}

pub open spec fn action_endpoint(id: Seq<char>, verb: Seq<char>) -> Seq<char> {
    "/containers/"@ + id + "/"@ + verb
}

/// What a well-framed response with a success status carries.
pub open spec fn response_ok(raw: Seq<u8>) -> bool {
    response_status(raw) matches Some(c) && 200 <= c <= 299 && response_body(raw) is Some
}

pub open spec fn is_running(c: Container) -> bool {
    c.state@ == "running"@
}

/// Running, with `sub` in its image reference.
pub open spec fn running_with_image(c: Container, sub: Seq<char>) -> bool {
    is_running(c) && contains_seq(c.image@, sub)
}

/// Running, with `sub` in one of its names.
pub open spec fn running_with_name(c: Container, sub: Seq<char>) -> bool {
    is_running(c) && exists|i: int| 0 <= i < c.names@.len() && contains_seq(#[trigger] c.names@[i]@, sub)
}

/// Carries the label `key` with the value `value`.
pub open spec fn has_label(c: Container, key: Seq<char>, value: Seq<char>) -> bool {
    c.labels matches Some(l) && label_value(l@, key) == Some(value)
}

/// The three ways of picking containers out of a listing.
pub enum ContainerFilter {
    Image(String),
    Name(String),
    Label(String, String),
}

pub open spec fn filter_holds(f: ContainerFilter, c: Container) -> bool {
    match f {
        ContainerFilter::Image(s) => running_with_image(c, s@),
        ContainerFilter::Name(s) => running_with_name(c, s@),
        ContainerFilter::Label(k, v) => has_label(c, k@, v@),
    }
}

pub fn any_contains(names: &Vec<String>, s: &str) -> (r: bool)
    ensures
        r == exists|i: int| 0 <= i < names@.len() && contains_seq(#[trigger] names@[i]@, s@),
{
    let mut i: usize = 0;
    while i < names.len()
        invariant
            i <= names@.len(),
            forall|k: int| 0 <= k < i ==> !contains_seq(#[trigger] names@[k]@, s@),
        decreases names.len() - i,
    {
        if str_contains(names[i].as_str(), s) {
            assert(contains_seq(names@[i as int]@, s@));
            return true;
        }
        i = i + 1;
    }
    false
}

pub fn filter_test(f: &ContainerFilter, c: &Container) -> (r: bool)
    ensures
        r == filter_holds(*f, *c),
{
    match f {
        ContainerFilter::Image(s) => str_eq(c.state.as_str(), "running") && str_contains(
            c.image.as_str(),
            s.as_str(),
        ),
        ContainerFilter::Name(s) => str_eq(c.state.as_str(), "running") && any_contains(
            &c.names,
            s.as_str(),
        ),
        ContainerFilter::Label(k, v) => match &c.labels {
            Some(l) => match find_label(l, k.as_str()) {
                Some(x) => str_eq(x.as_str(), v.as_str()),
                None => false,
            },
            None => false,
        },
    }
}

/// The containers of `cs` that pass `f`, in their order.
pub fn filter_containers(cs: Vec<Container>, f: &ContainerFilter) -> (r: Vec<Container>)
    ensures
        r@ == cs@.filter(|c: Container| filter_holds(*f, c)),
{
    let ghost orig = cs@;
    let ghost pred = |c: Container| filter_holds(*f, c);
    let mut rest = cs;
    let mut out: Vec<Container> = Vec::new();
    let ghost mut k: int = 0;
    assert(orig.take(0).filter(pred) =~= Seq::<Container>::empty()) by {
        reveal(Seq::filter);
    }
    while rest.len() > 0
        invariant
            0 <= k <= orig.len(),
            rest@ == orig.skip(k),
            out@ == orig.take(k).filter(pred),
            pred == (|c: Container| filter_holds(*f, c)),
        decreases rest.len(),
    {
        let c = rest.remove(0);
        assert(c == orig[k]);
        assert(orig.take(k + 1).drop_last() =~= orig.take(k));
        assert(orig.take(k + 1).last() == orig[k]);
        let keep = filter_test(f, &c);
        proof {
            reveal(Seq::filter);
        }
        if keep {
            out.push(c);
        }
        proof {
            k = k + 1;
        }
        assert(rest@ =~= orig.skip(k));
    }
    assert(orig.take(k) =~= orig);
    out
}

impl DockerClient {
    pub fn new(socket_path: String) -> (r: Self)
        ensures
            r.socket_path() == socket_path@,
    {
        Self { socket_path }
    }

    pub closed spec fn socket_path(&self) -> Seq<char> {
        self.socket_path@
    }

    /// Where the runtime listens.
    pub fn socket(&self) -> (r: &String)
        ensures
            r@ == self.socket_path(),
    {
        &self.socket_path
    }

    /// The frame that lists containers, stopped ones too where `all` holds.
    pub fn list_containers_request(&self, all: bool) -> (r: String)
        ensures
            r@ == request_text("GET"@, list_endpoint(all)),
    {
        let mut r = String::from_str("GET ");
        if all {
            r.append("/containers/json?all=true");
        } else {
            r.append("/containers/json");
        }
        r.append(" HTTP/1.1\r\nHost: localhost\r\nConnection: close\r\n\r\n");
        proof {
            reveal_strlit("GET");
            reveal_strlit("GET ");
            reveal_strlit(" ");
        }
        assert(r@ =~= request_text("GET"@, list_endpoint(all)));
        r
    }

    /// The frame that removes container `id`.
    pub fn remove_container_request(&self, id: &str, force: bool) -> (r: String)
        ensures
            r@ == request_text("DELETE"@, remove_endpoint(id@, force)),
    {
        let mut r = String::from_str("DELETE /containers/");
        r.append(id);
        if force {
            r.append("?force=true");
        } else {
            r.append("?force=false");
        }
        r.append(" HTTP/1.1\r\nHost: localhost\r\nConnection: close\r\n\r\n");
        proof {
            reveal_strlit("DELETE");
            reveal_strlit("DELETE /containers/");
            reveal_strlit("/containers/");
            reveal_strlit(" ");
        }
        assert(r@ =~= request_text("DELETE"@, remove_endpoint(id@, force)));
        r
    }

    fn action_request(id: &str, verb: &str) -> (r: String)
        ensures
            r@ == post_text(action_endpoint(id@, verb@)),
    {
        let mut r = String::from_str("POST /containers/");
        r.append(id);
        r.append("/");
        r.append(verb);
        r.append(
            " HTTP/1.1\r\nHost: localhost\r\nContent-Type: application/json\r\nContent-Length: 0\r\nConnection: close\r\n\r\n",
        );
        proof {
            reveal_strlit("POST /containers/");
            reveal_strlit("POST ");
            reveal_strlit("/containers/");
        }
        assert(r@ =~= post_text(action_endpoint(id@, verb@)));
        r
    }

    /// The frame that stops container `id`.
    pub fn stop_container_request(&self, id: &str) -> (r: String)
        ensures
            r@ == post_text(action_endpoint(id@, "stop"@)),
    {
        Self::action_request(id, "stop")
    }

    /// The frame that starts container `id`.
    pub fn start_container_request(&self, id: &str) -> (r: String)
        ensures
            r@ == post_text(action_endpoint(id@, "start"@)),
    {
        Self::action_request(id, "start")
    }

    /// Decodes a chunked body: the chunks' payloads, concatenated in order, or
    /// `None` where the framing is broken.
    pub fn clean_chunked_response(&self, body: &Vec<u8>) -> (r: Option<Vec<u8>>)
        ensures
            match r {
                Some(v) => dechunk(body@) == Some(v@),
                None => dechunk(body@) is None,
            },
    {
        let n = body.len();
        let nl = crlf_vec();
        let mut out: Vec<u8> = Vec::new();
        let mut pos: usize = 0;
        assert(body@.subrange(0, n as int) =~= body@);
        while pos < n
            invariant
                n == body@.len(),
                nl@ == crlf(),
                pos <= n,
                dechunk(body@) == after(out@, dechunk(body@.subrange(pos as int, n as int))),
            decreases n - pos,
        {
            let ghost rest = body@.subrange(pos as int, n as int);
            let e = match find_pat(body, &nl, pos) {
                Some(e) => e,
                None => {
                    proof { lemma_find_shift(body@, crlf(), pos as int, 0); }
                    return None;
                },
            };
            proof { lemma_find_shift(body@, crlf(), pos as int, 0); }
            let ghost le = e - pos;
            assert(rest.subrange(0, le) =~= body@.subrange(pos as int, e as int));
            let size = match parse_hex(body, pos, e, n) {
                Some(v) => v,
                None => {
                    return None;
                },
            };
            if size == 0 {
                assert(after(out@, Some(Seq::empty())) == Some(out@)) by {
                    assert(out@ + Seq::<u8>::empty() =~= out@);
                }
                return Some(out);
            }
            let start = e + 2;
            if start > n || n - start < size || n - start - size < 2 {
                return None;
            }
            if body[start + size] != 13 || body[start + size + 1] != 10 {
                assert(rest.subrange(le + 2 + size, le + 2 + size + 2)[0] == body@[start + size]);
                assert(rest.subrange(le + 2 + size, le + 2 + size + 2)[1] == body@[start + size + 1]);
                return None;
            }
            assert(rest.subrange(le + 2 + size, le + 2 + size + 2) =~= crlf());
            let ghost old_out = out@;
            let mut j: usize = start;
            while j < start + size
                invariant
                    start <= j <= start + size <= n,
                    n == body@.len(),
                    out@ == old_out + body@.subrange(start as int, j as int),
                decreases start + size - j,
            {
                out.push(body[j]);
                j = j + 1;
                assert(out@ =~= old_out + body@.subrange(start as int, j as int));
            }
            assert(rest.subrange(le + 2, le + 2 + size) =~= body@.subrange(start as int, start + size));
            assert(rest.subrange(le + 2 + size + 2, rest.len() as int)
                =~= body@.subrange(start + size + 2, n as int));
            pos = start + size + 2;
            assert(after(old_out, after(body@.subrange(start as int, start + size), dechunk(body@.subrange(pos as int, n as int))))
                == after(out@, dechunk(body@.subrange(pos as int, n as int)))) by {
                match dechunk(body@.subrange(pos as int, n as int)) {
                    Some(x) => {
                        assert(old_out + (body@.subrange(start as int, start + size) + x) =~= out@ + x);
                    },
                    None => {},
                }
            }
        }
        proof {
            assert(find_from(body@.subrange(pos as int, n as int), crlf(), 0) is None);
        }
        None
    }

    /// Reads a whole response, as received up to the end of the stream: its
    /// body with the transfer coding removed where the status is a success;
    /// the status and the body as sent where it is not; a decoding error
    /// where the head or the chunked framing is broken.
    pub fn read_response(&self, raw: &Vec<u8>) -> (r: Result<Vec<u8>, EngineError>)
        ensures
            match r {
                Ok(b) => response_ok(raw@) && response_body(raw@) == Some(b@),
                Err(EngineError::Api(c, b)) => response_status(raw@) == Some(c as int) && !(200
                    <= c <= 299) && b@ == raw_body(raw@),
                Err(EngineError::Decode(_)) => response_status(raw@) is None || (!response_ok(raw@)
                    && (response_status(raw@) matches Some(c) && 200 <= c <= 299)),
                Err(EngineError::Connection(_)) => false,
            },
    {
        let n = raw.len();
        let mut sep = crlf_vec();
        sep.push(13u8);
        sep.push(10u8);
        assert(sep@ =~= crlfcrlf());
        let h = match find_pat(raw, &sep, 0) {
            Some(h) => h,
            None => {
                return Err(EngineError::Decode(String::from_str("response has no blank line")));
            },
        };
        let nl = crlf_vec();
        proof {
            crate::http::lemma_line_before_head(raw@, 0, h as int);
        }
        let l = match find_pat(raw, &nl, 0) {
            Some(l) => l,
            None => {
                return Err(EngineError::Decode(String::from_str("response has no status line")));
            },
        };
        let line = copy_range(raw, 0, l);
        let code = match parse_status(&line) {
            Some(c) => c,
            None => {
                return Err(EngineError::Decode(String::from_str("malformed status line")));
            },
        };
        let body = copy_range(raw, h + 4, n);
        if code < 200 || code > 299 {
            return Err(EngineError::Api(code, body));
        }
        let head = copy_range(raw, l + 2, h + 2);
        if has_chunked_line(&head) {
            match self.clean_chunked_response(&body) {
                Some(b) => Ok(b),
                None => Err(EngineError::Decode(String::from_str("malformed chunked body"))),
            }
        } else {
            Ok(body)
        }
    }

    /// The running containers of a listing whose image reference holds
    /// `image_substring`.
    pub fn get_running_containers_by_image_substring(
        &self,
        containers: Vec<Container>,
        image_substring: &str,
    ) -> (r: Vec<Container>)
        ensures
            r@ == containers@.filter(|c: Container| running_with_image(c, image_substring@)),
    {
        let f = ContainerFilter::Image(String::from_str(image_substring));
        let r = filter_containers(containers, &f);
        assert((|c: Container| filter_holds(f, c)) =~= (|c: Container|
            running_with_image(c, image_substring@)));
        r
    }

    /// The running containers of a listing with `name` in one of their names.
    pub fn get_running_containers_by_name(&self, containers: Vec<Container>, name: &str) -> (r: Vec<
        Container,
    >)
        ensures
            r@ == containers@.filter(|c: Container| running_with_name(c, name@)),
    {
        let f = ContainerFilter::Name(String::from_str(name));
        let r = filter_containers(containers, &f);
        assert((|c: Container| filter_holds(f, c)) =~= (|c: Container| running_with_name(c, name@)));
        r
    }
}

} // verus!
