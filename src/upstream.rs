use vstd::prelude::*;
use crate::player::SpotifyWebPlayer;
use crate::token::is_success;

verus! {

/// A non-success answer of an upstream endpoint, kept for diagnostics.
pub struct UpstreamError {
    pub status: u16,
    pub body: String,
}

/// The lyrics endpoint's answer as the client sees it.
pub enum LyricsReply {
    /// The track's lyrics document.
    Found(String),
    /// The track has no lyrics (the endpoint answered 404).
    NotFound,
}

/// HTTP status "not found".
pub const NOT_FOUND: u16 = 404;

impl SpotifyWebPlayer {
    /// The lyrics result for an answer of the lyrics endpoint: the body on
    /// success, `NotFound` on 404, and an error with the body otherwise.
    pub fn get_lyrics(status: u16, body: String) -> (r: Result<LyricsReply, UpstreamError>)
        ensures
            is_success(status) ==> (r matches Ok(LyricsReply::Found(b)) && b == body),
            status == 404 ==> r matches Ok(LyricsReply::NotFound),
            !is_success(status) && status != 404 ==> (r matches Err(e) && e.status == status
                && e.body == body),
    {
        if 200 <= status && status <= 299 {
            Ok(LyricsReply::Found(body))
        } else if status == NOT_FOUND {
            Ok(LyricsReply::NotFound)
        } else {
            Err(UpstreamError { status, body })
        }
    }

    /// The recommendation result for an answer of the seed-to-playlist
    /// endpoint: the body on success, an error with the body otherwise.
    pub fn get_recommend_song(status: u16, body: String) -> (r: Result<String, UpstreamError>)
        ensures
            is_success(status) ==> r == Ok::<String, UpstreamError>(body),
            !is_success(status) ==> (r matches Err(e) && e.status == status && e.body == body),
    {
        if 200 <= status && status <= 299 {
            Ok(body)
        } else {
            Err(UpstreamError { status, body })
        }
    }
}

/// The token of an `Authorization` header value: the header is `Bearer`,
/// one space, and a token that holds no space.
pub open spec fn bearer_token(h: Seq<char>) -> Option<Seq<char>> {
    if h.len() >= 7 && h.subrange(0, 7) == "Bearer "@ && (forall|i: int|
        7 <= i < h.len() ==> #[trigger] h[i] != ' ') {
        Some(h.subrange(7, h.len() as int))
    } else {
        None
    }
}

/// The bearer token of an optional `Authorization` header, see `bearer_token`.
pub fn extract_token(auth_header: Option<String>) -> (r: Option<String>)
    ensures
        match auth_header {
            None => r.is_none(),
            Some(h) => match r {
                Some(t) => bearer_token(h@) == Some(t@),
                None => bearer_token(h@).is_none(),
            },
        },
{
    let h = match auth_header {
        Some(h) => h,
        None => return None,
    };
    let s = h.as_str();
    let n = s.unicode_len();
    assert(s@ == h@);
    if n < 7 {
        return None;
    }
    let prefix = "Bearer ";
    proof {
        reveal_strlit("Bearer ");
    }
    let mut i: usize = 0;
    while i < 7
        invariant
            n == s@.len(),
            s@ == h@,
            auth_header == Some(h),
            n >= 7,
            prefix@ == "Bearer "@,
            prefix@.len() == 7,
            i <= 7,
            forall|j: int| 0 <= j < i ==> s@[j] == prefix@[j],
        decreases 7 - i,
    {
        if s.get_char(i) != prefix.get_char(i) {
            assert(s@.subrange(0, 7)[i as int] != "Bearer "@[i as int]);
            assert(bearer_token(h@).is_none());
            return None;
        }
        i = i + 1;
    }
    assert(s@.subrange(0, 7) =~= "Bearer "@);
    let mut k: usize = 7;
    while k < n
        invariant
            n == s@.len(),
            s@ == h@,
            auth_header == Some(h),
            7 <= k <= n,
            forall|j: int| 7 <= j < k ==> #[trigger] s@[j] != ' ',
        decreases n - k,
    {
        if s.get_char(k) == ' ' {
            assert(h@[k as int] == ' ');
            assert(bearer_token(h@).is_none());
            return None;
        }
        k = k + 1;
    }
    let t = s.substring_char(7, n);
    Some(String::from_str(t))
}

/// The text after the last `:` of a URI, or the whole text where it has none.
pub open spec fn last_segment(s: Seq<char>) -> Seq<char>
    decreases s.len(),
{
    if s.len() == 0 {
        s
    } else if s.last() == ':' {
        Seq::empty()
    } else {
        last_segment(s.drop_last()).push(s.last())
    }
}

/// The playlist id of a `spotify:playlist:<id>` URI: its last `:`-separated part.
pub fn playlist_id_of(uri: &str) -> (r: String)
    ensures
        r@ == last_segment(uri@),
{
    let n = uri.unicode_len();
    let mut k: usize = n;
    assert(uri@.subrange(0, n as int) =~= uri@);
    assert(uri@.subrange(n as int, n as int) =~= Seq::<char>::empty());
    while k > 0 && uri.get_char(k - 1) != ':'
        invariant
            n == uri@.len(),
            k <= n,
            last_segment(uri@) == last_segment(uri@.subrange(0, k as int)) + uri@.subrange(
                k as int,
                n as int,
            ),
        decreases k,
    {
        proof {
            let pre = uri@.subrange(0, k as int);
            assert(pre.drop_last() =~= uri@.subrange(0, k as int - 1));
            assert(last_segment(pre) == last_segment(uri@.subrange(0, k as int - 1)).push(
                uri@[k as int - 1],
            ));
            assert(last_segment(uri@.subrange(0, k as int - 1)).push(uri@[k as int - 1])
                + uri@.subrange(k as int, n as int) =~= last_segment(
                uri@.subrange(0, k as int - 1),
            ) + uri@.subrange(k as int - 1, n as int));
        }
        k = k - 1;
    }
    proof {
        if k == 0 {
            assert(uri@.subrange(0, 0) =~= Seq::<char>::empty());
        }
        assert(Seq::<char>::empty() + uri@.subrange(k as int, n as int) =~= uri@.subrange(
            k as int,
            n as int,
        ));
    }
    let t = uri.substring_char(k, n);
    String::from_str(t)
}

} // verus!
