use vstd::prelude::*;

verus! {

/// Why a Maven coordinate could not be turned into a repository path. Each
/// variant carries the coordinate as it was given.
#[derive(Debug)]
pub enum MavenError {
    /// The group segment is absent. Splitting always yields a first
    /// segment, so `get_path_from_artifact` never gives it.
    Package(String),
    /// The name segment is absent.
    Name(String),
    /// The version segment is absent.
    Version(String),
    /// The classifier segment could not be read. A fourth segment, when
    /// present, is always readable, so `get_path_from_artifact` never gives it.
    Data(String),
}

/// Index of the first occurrence of `c` in `s`, if any.
pub open spec fn first_index_of(s: Seq<char>, c: char) -> Option<int>
    decreases s.len(),
{
    if s.len() == 0 {
        None
    } else if s[0] == c {
        Some(0)
    } else {
        match first_index_of(s.drop_first(), c) {
            Some(i) => Some(i + 1),
            None => None,
        }
    }
}

/// Index of the last occurrence of `c` in `s`, if any.
pub open spec fn last_index_of(s: Seq<char>, c: char) -> Option<int>
    decreases s.len(),
{
    if s.len() == 0 {
        None
    } else if s.last() == c {
        Some(s.len() - 1)
    } else {
        last_index_of(s.drop_last(), c)
    }
}

proof fn lemma_first_index_of(s: Seq<char>, c: char, k: int)
    requires
        0 <= k <= s.len(),
        forall|j: int| 0 <= j < k ==> s[j] != c,
    ensures
        k < s.len() && s[k] == c ==> first_index_of(s, c) == Some(k),
        k == s.len() ==> first_index_of(s, c) is None,
    decreases k,
{
    if k > 0 {
        lemma_first_index_of(s.drop_first(), c, k - 1);
    }
}

proof fn lemma_last_index_of(s: Seq<char>, c: char, k: int)
    requires
        0 <= k <= s.len(),
        forall|j: int| k <= j < s.len() ==> s[j] != c,
    ensures
        k > 0 && s[k - 1] == c ==> last_index_of(s, c) == Some(k - 1),
        k == 0 ==> last_index_of(s, c) is None,
    decreases s.len(),
{
    if s.len() > 0 && k < s.len() {
        lemma_last_index_of(s.drop_last(), c, k);
    } else if s.len() > 0 && k == s.len() && k > 0 && s[k - 1] != c {
        lemma_last_index_of(s.drop_last(), c, k - 1);
    }
}

/// Position of the first `c` in `s`.
fn find_first(s: &str, c: char) -> (r: Option<usize>)
    ensures
        match r {
            Some(i) => first_index_of(s@, c) == Some(i as int),
            None => first_index_of(s@, c) is None,
        },
{
    let n = s.unicode_len();
    let mut i: usize = 0;
    while i < n
        invariant
            n == s@.len(),
            i <= n,
            forall|j: int| 0 <= j < i ==> s@[j] != c,
        decreases n - i,
    {
        if s.get_char(i) == c {
            proof {
                lemma_first_index_of(s@, c, i as int);
            }
            return Some(i);
        }
        i += 1;
    }
    proof {
        lemma_first_index_of(s@, c, n as int);
    }
    None
}

/// Position of the last `c` in `s`.
fn find_last(s: &str, c: char) -> (r: Option<usize>)
    ensures
        match r {
            Some(i) => last_index_of(s@, c) == Some(i as int),
            None => last_index_of(s@, c) is None,
        },
{
    let n = s.unicode_len();
    let mut k: usize = n;
    while k > 0
        invariant
            n == s@.len(),
            k <= n,
            forall|j: int| k <= j < n ==> s@[j] != c,
        decreases k,
    {
        if s.get_char(k - 1) == c {
            proof {
                lemma_last_index_of(s@, c, k as int);
            }
            return Some(k - 1);
        }
        k -= 1;
    }
    proof {
        lemma_last_index_of(s@, c, 0);
    }
    None
}

proof fn lemma_first_index_of_bounds(s: Seq<char>, c: char)
    ensures
        first_index_of(s, c) matches Some(i) ==> 0 <= i < s.len() && s[i] == c,
    decreases s.len(),
{
    if s.len() > 0 {
        lemma_first_index_of_bounds(s.drop_first(), c);
    }
}

proof fn lemma_last_index_of_bounds(s: Seq<char>, c: char)
    ensures
        last_index_of(s, c) matches Some(i) ==> 0 <= i < s.len() && s[i] == c,
    decreases s.len(),
{
    if s.len() > 0 {
        lemma_last_index_of_bounds(s.drop_last(), c);
    }
}

/// The coordinate without its `@extension` suffix: everything before the
/// last `@`, or the whole text when there is none.
pub open spec fn coordinate_body(artifact: Seq<char>) -> Seq<char> {
    match last_index_of(artifact, '@') {
        Some(i) => artifact.take(i),
        None => artifact,
    }
}

/// The file extension: everything after the last `@`, `jar` when there is none.
pub open spec fn extension_of(artifact: Seq<char>) -> Seq<char> {
    match last_index_of(artifact, '@') {
        Some(i) => artifact.skip(i + 1),
        None => seq!['j', 'a', 'r'],
    }
}

/// `s` cut at its first `n - 1` colons, left to right; the last piece keeps
/// any colons that remain.
pub open spec fn split_segments(s: Seq<char>, n: nat) -> Seq<Seq<char>>
    decreases n,
{
    if n <= 1 {
        seq![s]
    } else {
        match first_index_of(s, ':') {
            Some(i) => seq![s.take(i)] + split_segments(s.skip(i + 1), (n - 1) as nat),
            None => seq![s],
        }
    }
}

/// The segments group, name, version and (optionally) classifier.
pub open spec fn coordinate_segments(artifact: Seq<char>) -> Seq<Seq<char>> {
    split_segments(coordinate_body(artifact), 4)
}

/// `s` with every `.` replaced by `/`.
pub open spec fn slashed(s: Seq<char>) -> Seq<char> {
    s.map_values(|c: char| if c == '.' { '/' } else { c })
}

/// The Maven repository layout of a coordinate with at least three segments:
/// `group/name/version/name-version[-classifier].extension`, with the dots of
/// the group turned into slashes.
pub open spec fn repository_path(artifact: Seq<char>) -> Seq<char> {
    let segs = coordinate_segments(artifact);
    let stem = slashed(segs[0]) + seq!['/'] + segs[1] + seq!['/'] + segs[2] + seq!['/'] + segs[1]
        + seq!['-'] + segs[2];
    if segs.len() == 3 {
        stem + seq!['.'] + extension_of(artifact)
    } else {
        stem + seq!['-'] + segs[3] + seq!['.'] + extension_of(artifact)
    }
}

proof fn lemma_split_segments_len(s: Seq<char>, n: nat)
    requires
        n >= 1,
    ensures
        1 <= split_segments(s, n).len() <= n,
    decreases n,
{
    if n > 1 {
        if let Some(i) = first_index_of(s, ':') {
            lemma_split_segments_len(s.skip(i + 1), (n - 1) as nat);
        }
    }
}

/// The views of a sequence of string slices.
pub open spec fn str_views(v: Seq<&str>) -> Seq<Seq<char>> {
    v.map_values(|t: &str| t@)
}

/// `s` cut into at most `4` segments at its colons.
fn split_coordinate<'a>(body: &'a str) -> (r: Vec<&'a str>)
    ensures
        str_views(r@) == split_segments(body@, 4),
{
    let mut segs: Vec<&'a str> = Vec::new();
    let mut rest: &'a str = body;
    let mut done = false;
    while !done && segs.len() < 3
        invariant
            segs.len() <= 3,
            str_views(segs@) + split_segments(rest@, (4 - segs.len()) as nat) == split_segments(
                body@,
                4,
            ),
            done ==> first_index_of(rest@, ':') is None,
        decreases 2 * (3 - segs.len()) + if done {
            0int
        } else {
            1int
        },
    {
        match find_first(rest, ':') {
            None => {
                done = true;
            },
            Some(i) => {
                proof {
                    lemma_first_index_of_bounds(rest@, ':');
                }
                let n = rest.unicode_len();
                let head = rest.substring_char(0, i);
                let tail = rest.substring_char(i + 1, n);
                let ghost k = (4 - segs.len()) as nat;
                let ghost before = str_views(segs@);
                assert(head@ == rest@.take(i as int));
                assert(tail@ == rest@.skip(i + 1));
                segs.push(head);
                assert(str_views(segs@) == before + seq![head@]);
                assert(split_segments(rest@, k) == seq![head@] + split_segments(tail@, (k - 1) as nat));
                assert(str_views(segs@) + split_segments(tail@, (k - 1) as nat) == before
                    + split_segments(rest@, k));
                rest = tail;
            },
        }
    }
    let ghost before = str_views(segs@);
    assert(split_segments(rest@, (4 - segs.len()) as nat) == seq![rest@]);
    segs.push(rest);
    assert(str_views(segs@) == before + seq![rest@]);
    segs
}

/// `s` with every `.` replaced by `/`.
fn slash_dots(s: &str) -> (r: String)
    ensures
        r@ == slashed(s@),
{
    let n = s.unicode_len();
    let mut out = String::new();
    let mut i: usize = 0;
    while i < n
        invariant
            n == s@.len(),
            i <= n,
            out@ == slashed(s@.take(i as int)),
        decreases n - i,
    {
        let c = s.get_char(i);
        let ghost prev = out@;
        if c == '.' {
            let sep = "/";
            proof {
                reveal_strlit("/");
            }
            assert(sep@ =~= seq!['/']);
            out.append(sep);
            assert(out@ =~= prev.push('/'));
        } else {
            let one = s.substring_char(i, i + 1);
            assert(one@ == seq![c]);
            out.append(one);
            assert(out@ == prev.push(c));
        }
        assert(s@.take(i + 1) == s@.take(i as int).push(c));
        assert(slashed(s@.take(i + 1)) == slashed(s@.take(i as int)).push(
            if c == '.' { '/' } else { c },
        ));
        i += 1;
    }
    assert(s@.take(n as int) == s@);
    out
}

/// Converts a Maven coordinate `group:name:version[:classifier][@extension]`
/// to its path in a Maven repository.
pub fn get_path_from_artifact(artifact: &str) -> (r: Result<String, MavenError>)
    ensures
        match r {
            Ok(path) => coordinate_segments(artifact@).len() >= 3 && path@ == repository_path(
                artifact@,
            ),
            Err(MavenError::Name(a)) => coordinate_segments(artifact@).len() == 1 && a@
                == artifact@,
            Err(MavenError::Version(a)) => coordinate_segments(artifact@).len() == 2 && a@
                == artifact@,
            Err(_) => false,
        },
{
    proof {
        reveal_strlit("jar");
        reveal_strlit("/");
        reveal_strlit("-");
        reveal_strlit(".");
        lemma_last_index_of_bounds(artifact@, '@');
    }
    let n = artifact.unicode_len();
    let (body, ext) = match find_last(artifact, '@') {
        Some(i) => (artifact.substring_char(0, i), artifact.substring_char(i + 1, n)),
        None => (artifact, "jar"),
    };
    assert(body@ == coordinate_body(artifact@));
    assert(ext@ == extension_of(artifact@));
    let segs = split_coordinate(body);
    proof {
        lemma_split_segments_len(body@, 4);
    }
    assert(segs@.len() == str_views(segs@).len());
    if segs.len() < 2 {
        return Err(MavenError::Name(String::from_str(artifact)));
    }
    if segs.len() < 3 {
        return Err(MavenError::Version(String::from_str(artifact)));
    }
    let group = segs[0];
    let name = segs[1];
    let version = segs[2];
    assert(group@ == coordinate_segments(artifact@)[0]);
    assert(name@ == coordinate_segments(artifact@)[1]);
    assert(version@ == coordinate_segments(artifact@)[2]);
    let mut path = slash_dots(group);
    path.append("/");
    path.append(name);
    path.append("/");
    path.append(version);
    path.append("/");
    path.append(name);
    path.append("-");
    path.append(version);
    if segs.len() > 3 {
        let classifier = segs[3];
        assert(classifier@ == coordinate_segments(artifact@)[3]);
        path.append("-");
        path.append(classifier);
    }
    path.append(".");
    path.append(ext);
    Ok(path)
}

/// `c` does not occur in `s`.
pub open spec fn lacks(s: Seq<char>, c: char) -> bool {
    forall|j: int| 0 <= j < s.len() ==> s[j] != c
}

proof fn lemma_split_after_colon_free(head: Seq<char>, rest: Seq<char>, n: nat)
    requires
        n >= 2,
        lacks(head, ':'),
    ensures
        split_segments(head + seq![':'] + rest, n) == seq![head] + split_segments(
            rest,
            (n - 1) as nat,
        ),
{
    let s = head + seq![':'] + rest;
    lemma_first_index_of(s, ':', head.len() as int);
    assert(s.take(head.len() as int) =~= head);
    assert(s.skip(head.len() as int + 1) =~= rest);
}

proof fn lemma_no_extension(artifact: Seq<char>)
    requires
        lacks(artifact, '@'),
    ensures
        coordinate_body(artifact) == artifact,
        extension_of(artifact) == seq!['j', 'a', 'r'],
{
    lemma_last_index_of(artifact, '@', 0);
}

/// A coordinate `group:name:version` without `@` resolves to
/// `group/name/version/name-version.jar`, the dots of the group turned into
/// slashes.
pub proof fn lemma_three_segment_path(group: Seq<char>, name: Seq<char>, version: Seq<char>)
    requires
        lacks(group, ':'),
        lacks(name, ':'),
        lacks(version, ':'),
        lacks(group, '@'),
        lacks(name, '@'),
        lacks(version, '@'),
    ensures
        ({
            let artifact = group + seq![':'] + name + seq![':'] + version;
            &&& coordinate_segments(artifact).len() == 3
            &&& repository_path(artifact) == slashed(group) + seq!['/'] + name + seq!['/'] + version
                + seq!['/'] + name + seq!['-'] + version + seq!['.', 'j', 'a', 'r']
        }),
{
    let tail = name + seq![':'] + version;
    let artifact = group + seq![':'] + tail;
    assert(artifact =~= group + seq![':'] + name + seq![':'] + version);
    assert(lacks(artifact, '@'));
    lemma_no_extension(artifact);
    lemma_split_after_colon_free(group, tail, 4);
    lemma_split_after_colon_free(name, version, 3);
    lemma_first_index_of(version, ':', version.len() as int);
    assert(split_segments(version, 2) == seq![version]);
    assert(coordinate_segments(artifact) =~= seq![group, name, version]);
}

/// A coordinate `group:name:version:classifier` without `@` resolves to
/// `group/name/version/name-version-classifier.jar`, the dots of the group
/// turned into slashes. The classifier keeps any further colons.
pub proof fn lemma_four_segment_path(
    group: Seq<char>,
    name: Seq<char>,
    version: Seq<char>,
    classifier: Seq<char>,
)
    requires
        lacks(group, ':'),
        lacks(name, ':'),
        lacks(version, ':'),
        lacks(group, '@'),
        lacks(name, '@'),
        lacks(version, '@'),
        lacks(classifier, '@'),
    ensures
        ({
            let artifact = group + seq![':'] + name + seq![':'] + version + seq![':'] + classifier;
            &&& coordinate_segments(artifact).len() == 4
            &&& repository_path(artifact) == slashed(group) + seq!['/'] + name + seq!['/'] + version
                + seq!['/'] + name + seq!['-'] + version + seq!['-'] + classifier + seq![
                '.',
                'j',
                'a',
                'r',
            ]
        }),
{
    let tail2 = version + seq![':'] + classifier;
    let tail1 = name + seq![':'] + tail2;
    let artifact = group + seq![':'] + tail1;
    assert(artifact =~= group + seq![':'] + name + seq![':'] + version + seq![':'] + classifier);
    assert(lacks(artifact, '@'));
    lemma_no_extension(artifact);
    lemma_split_after_colon_free(group, tail1, 4);
    lemma_split_after_colon_free(name, tail2, 3);
    lemma_split_after_colon_free(version, classifier, 2);
    assert(coordinate_segments(artifact) =~= seq![group, name, version, classifier]);
}

} // verus!
