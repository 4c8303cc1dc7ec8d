//! Download addresses and the package manifest of a version.

use vstd::prelude::*;

use crate::error::InstallError;
use crate::roots::ProductVariant;
use crate::text::{ends_with, has_suffix, trim_ws, trimmed};

verus! {

/// The path segment that a product variant's files sit under on the download
/// host.
pub open spec fn variant_segment(v: ProductVariant) -> Seq<char> {
    match v {
        ProductVariant::WindowsPlayer => ""@,
    }
}

/// The name under which the version service knows a product variant.
pub open spec fn variant_service_name(v: ProductVariant) -> Seq<char> {
    match v {
        ProductVariant::WindowsPlayer => "WindowsPlayer"@,
    }
}

/// Address of the manifest of `version`.
pub open spec fn manifest_url_of(base: Seq<char>, v: ProductVariant, version: Seq<char>) -> Seq<
    char,
> {
    base + variant_segment(v) + version + "-rbxPkgManifest.txt"@
}

/// Address of the archive `file` of `version`.
pub open spec fn blob_url_of(
    base: Seq<char>,
    v: ProductVariant,
    version: Seq<char>,
    file: Seq<char>,
) -> Seq<char> {
    base + variant_segment(v) + version + "-"@ + file
}

/// Address that tells the latest version of a variant on a release channel.
pub open spec fn latest_version_url_of(v: ProductVariant, channel: Seq<char>) -> Seq<char> {
    "https://clientsettings.roblox.com/v2/client-version/"@ + variant_service_name(v)
        + "/channel/"@ + channel
}

fn variant_segment_str(v: ProductVariant) -> (r: &'static str)
    ensures
        r@ == variant_segment(v),
{
    match v {
        ProductVariant::WindowsPlayer => "",
    }
}

/// The address of the manifest of `version`.
pub fn manifest_url(base: &str, v: ProductVariant, version: &str) -> (r: String)
    ensures
        r@ == manifest_url_of(base@, v, version@),
{
    String::from_str(base).concat(variant_segment_str(v)).concat(version).concat(
        "-rbxPkgManifest.txt",
    )
}

/// The address of the archive `file` of `version`.
pub fn blob_url(base: &str, v: ProductVariant, version: &str, file: &str) -> (r: String)
    ensures
        r@ == blob_url_of(base@, v, version@, file@),
{
    String::from_str(base).concat(variant_segment_str(v)).concat(version).concat("-").concat(file)
}

/// The address that tells the latest version of a variant on `channel`.
pub fn latest_version_url(v: ProductVariant, channel: &str) -> (r: String)
    ensures
        r@ == latest_version_url_of(v, channel@),
{
    let name = match v {
        ProductVariant::WindowsPlayer => "WindowsPlayer",
    };
    String::from_str("https://clientsettings.roblox.com/v2/client-version/").concat(name).concat(
        "/channel/",
    ).concat(channel)
}

/// `s` cut at each line feed; a text without line feeds is one line.
pub open spec fn split_lines(s: Seq<char>) -> Seq<Seq<char>>
    decreases s.len(),
{
    if s.len() == 0 {
        seq![Seq::empty()]
    } else {
        let prev = split_lines(s.drop_last());
        if s.last() == '\n' {
            prev.push(Seq::empty())
        } else {
            prev.update(prev.len() - 1, prev.last().push(s.last()))
        }
    }
}

/// The trimmed lines that name a `.zip` archive, in order.
pub open spec fn zip_lines(lines: Seq<Seq<char>>) -> Seq<Seq<char>>
    decreases lines.len(),
{
    if lines.len() == 0 {
        Seq::empty()
    } else {
        let prev = zip_lines(lines.drop_last());
        let t = trimmed(lines.last());
        if has_suffix(t, ".zip"@) {
            prev.push(t)
        } else {
            prev
        }
    }
}

/// The archive names that a manifest text lists, in manifest order.
pub open spec fn manifest_entries(body: Seq<char>) -> Seq<Seq<char>> {
    zip_lines(split_lines(body))
}

/// The character sequences of a list of strings.
pub open spec fn strings_view(v: Seq<String>) -> Seq<Seq<char>> {
    v.map_values(|s: String| s@)
}

/// Splits a manifest into lines, trims each, and keeps those that end in
/// `.zip`; fails with `EmptyManifest` when none is left.
pub fn parse_manifest(body: &str) -> (r: Result<Vec<String>, InstallError>)
    ensures
        manifest_entries(body@).len() == 0 ==> r == Err::<Vec<String>, InstallError>(
            InstallError::EmptyManifest,
        ),
        manifest_entries(body@).len() > 0 ==> r is Ok && strings_view(r->Ok_0@)
            == manifest_entries(body@),
{
    let n = body.unicode_len();
    let mut out: Vec<String> = Vec::new();
    let mut start: usize = 0;
    let mut i: usize = 0;
    let ghost mut done: Seq<Seq<char>> = Seq::empty();
    let zip_suffix = ".zip";
    proof {
        reveal_strlit(".zip");
        assert(body@.subrange(0, 0) =~= Seq::<char>::empty());
        assert(split_lines(Seq::<char>::empty()) =~= done.push(body@.subrange(0, 0)));
    }
    while i < n
        invariant
            start <= i <= n,
            n == body@.len(),
            zip_suffix@ == ".zip"@,
            split_lines(body@.subrange(0, i as int)) == done.push(
                body@.subrange(start as int, i as int),
            ),
            strings_view(out@) == zip_lines(done),
        decreases n - i,
    {
        let c = body.get_char(i);
        let ghost pre = body@.subrange(0, i as int);
        assert(body@.subrange(0, i + 1).drop_last() =~= pre);
        if c == '\n' {
            let line = body.substring_char(start, i);
            let t = trim_ws(line);
            proof {
                assert(done.push(line@).drop_last() =~= done);
            }
            if ends_with(t, zip_suffix) {
                out.push(String::from_str(t));
                proof {
                    assert(strings_view(out@) =~= strings_view(out@).drop_last().push(t@));
                    assert(strings_view(out@).drop_last() =~= zip_lines(done));
                }
            }
            proof {
                done = done.push(line@);
            }
            start = i + 1;
            assert(body@.subrange(start as int, i + 1) =~= Seq::<char>::empty());
        } else {
            proof {
                assert(body@.subrange(start as int, i + 1) =~= body@.subrange(
                    start as int,
                    i as int,
                ).push(c));
                assert(done.push(body@.subrange(start as int, i as int)).update(
                    done.len() as int,
                    body@.subrange(start as int, i as int).push(c),
                ) =~= done.push(body@.subrange(start as int, i + 1)));
            }
        }
        i = i + 1;
    }
    let line = body.substring_char(start, n);
    let t = trim_ws(line);
    proof {
        assert(body@.subrange(0, n as int) =~= body@);
        assert(done.push(line@).drop_last() =~= done);
    }
    if ends_with(t, zip_suffix) {
        out.push(String::from_str(t));
        proof {
            assert(strings_view(out@) =~= strings_view(out@).drop_last().push(t@));
            assert(strings_view(out@).drop_last() =~= zip_lines(done));
        }
    }
    if out.len() == 0 {
        Err(InstallError::EmptyManifest)
    } else {
        Ok(out)
    }
}

/// What a download request came back with: a transport failure (no
/// connection, a time-out), or an HTTP status and the body.
pub enum Fetched<T> {
    Failed,
    Reply(u16, T),
}

/// A status of the 2xx class.
pub open spec fn is_success(status: u16) -> bool {
    200 <= status < 300
}

/// The outcome of a manifest request: `None` for a transport failure, else
/// the status and the body.
pub open spec fn manifest_outcome(reply: Option<(u16, Seq<char>)>) -> Result<
    Seq<Seq<char>>,
    InstallError,
> {
    match reply {
        None => Err(InstallError::NetworkError),
        Some((status, body)) => if status == 403 {
            Err(InstallError::InvalidVersion)
        } else if !is_success(status) {
            Err(InstallError::NetworkError)
        } else if manifest_entries(body).len() == 0 {
            Err(InstallError::EmptyManifest)
        } else {
            Ok(manifest_entries(body))
        },
    }
}

/// A reply with a text body, as the outcome model sees it.
pub open spec fn text_reply(f: &Fetched<String>) -> Option<(u16, Seq<char>)> {
    match f {
        Fetched::Failed => None,
        Fetched::Reply(status, body) => Some((*status, body@)),
    }
}

/// The archive list of a manifest request: a 403 means the version is not
/// known, another failure is a network error, and a successful reply is
/// parsed.
pub fn manifest_from_reply(reply: &Fetched<String>) -> (r: Result<Vec<String>, InstallError>)
    ensures
        r is Ok <==> manifest_outcome(text_reply(reply)) is Ok,
        r is Ok ==> strings_view(r->Ok_0@) == manifest_outcome(text_reply(reply))->Ok_0,
        r is Err ==> manifest_outcome(text_reply(reply)) == Err::<Seq<Seq<char>>, InstallError>(
            r->Err_0,
        ),
{
    match reply {
        Fetched::Failed => Err(InstallError::NetworkError),
        Fetched::Reply(status, body) => {
            if *status == 403 {
                Err(InstallError::InvalidVersion)
            } else if *status < 200 || *status >= 300 {
                Err(InstallError::NetworkError)
            } else {
                parse_manifest(body.as_str())
            }
        },
    }
}

/// A manifest that is empty, or lists no `.zip` archive, fails with
/// `EmptyManifest` instead of installing nothing.
pub proof fn lemma_no_archives_is_empty_manifest(status: u16, body: Seq<char>)
    requires
        is_success(status),
        body.len() == 0 || manifest_entries(body).len() == 0,
    ensures
        manifest_outcome(Some((status, body))) == Err::<Seq<Seq<char>>, InstallError>(
            InstallError::EmptyManifest,
        ),
{
    if body.len() == 0 {
        let lines = split_lines(body);
        assert(lines =~= seq![Seq::<char>::empty()]);
        assert(lines.drop_last() =~= Seq::<Seq<char>>::empty());
        assert(trimmed(Seq::<char>::empty()) =~= Seq::<char>::empty());
        reveal_strlit(".zip");
        assert(!has_suffix(Seq::<char>::empty(), ".zip"@));
        assert(lines.last() == Seq::<char>::empty());
        assert(zip_lines(lines.drop_last()) =~= Seq::<Seq<char>>::empty());
        assert(zip_lines(lines) =~= Seq::<Seq<char>>::empty());
    }
}

/// A manifest request refused with HTTP 403 fails with `InvalidVersion`,
/// which differs from the `NetworkError` of a transport failure such as a
/// time-out on the same request.
pub proof fn lemma_forbidden_is_not_network_error(body: Seq<char>)
    ensures
        manifest_outcome(Some((403u16, body))) == Err::<Seq<Seq<char>>, InstallError>(
            InstallError::InvalidVersion,
        ),
        manifest_outcome(None) == Err::<Seq<Seq<char>>, InstallError>(InstallError::NetworkError),
        manifest_outcome(Some((403u16, body))) != manifest_outcome(None),
{
}

} // verus!
