use vstd::prelude::*;

verus! {

/// The extension of the last component of a path, as `std::path::Path` reads it.
pub uninterp spec fn path_extension(path: Seq<char>) -> Option<Seq<char>>;

/// Relies on std::path::Path::extension: the extension of the file named by
/// `path`, or `None` when it has none.
#[verifier::external_body]
fn file_extension(path: &str) -> (r: Option<String>)
    ensures
        match r {
            Some(e) => path_extension(path@) == Some(e@),
            None => path_extension(path@) is None,
        },
{
    match std::path::Path::new(path).extension() {
        Some(e) => e.to_str().map(|s| s.to_string()),
        None => None,
    }
}

/// `c` with an ASCII upper-case letter mapped to its lower-case letter.
pub open spec fn ascii_lower(c: char) -> u32 {
    if 'A' <= c && c <= 'Z' {
        (c as u32 + 32) as u32
    } else {
        c as u32
    }
}

/// Equality of two texts up to ASCII case.
pub open spec fn eq_ignore_ascii_case_spec(a: Seq<char>, b: Seq<char>) -> bool {
    &&& a.len() == b.len()
    &&& forall|i: int| 0 <= i < a.len() ==> #[trigger] ascii_lower(a[i]) == ascii_lower(b[i])
}

fn lower_ascii_char(c: char) -> (r: u32)
    ensures
        r == ascii_lower(c),
{
    if 'A' <= c && c <= 'Z' {
        c as u32 + 32
    } else {
        c as u32
    }
}

/// Whether `a` and `b` are equal up to ASCII case.
pub fn eq_ignore_ascii_case(a: &str, b: &str) -> (r: bool)
    ensures
        r == eq_ignore_ascii_case_spec(a@, b@),
{
    let n = a.unicode_len();
    if n != b.unicode_len() {
        return false;
    }
    let mut i: usize = 0;
    while i < n
        invariant
            n == a@.len(),
            n == b@.len(),
            i <= n,
            forall|j: int| 0 <= j < i ==> #[trigger] ascii_lower(a@[j]) == ascii_lower(b@[j]),
        decreases n - i,
    {
        if lower_ascii_char(a.get_char(i)) != lower_ascii_char(b.get_char(i)) {
            return false;
        }
        i = i + 1;
    }
    true
}

/// The file extensions of the VASP volumetric text format.
pub open spec fn vasp_extensions() -> Seq<Seq<char>> {
    seq!["vasp"@]
}

/// Whether some extension of `exts` equals `ext` up to ASCII case.
pub open spec fn supports_spec(exts: Seq<Seq<char>>, ext: Seq<char>) -> bool {
    exists|i: int| 0 <= i < exts.len() && eq_ignore_ascii_case_spec(#[trigger] exts[i], ext)
}

/// Format description of the VASP volumetric text files (CHGCAR-like): the
/// extensions it is chosen for and its name.
pub struct VaspParser {}

impl VaspParser {
    pub fn new() -> (r: VaspParser) {
        VaspParser {  }
    }

    /// Extensions (without the dot) of the files this format reads.
    pub fn supported_extensions(&self) -> (r: Vec<&'static str>)
        ensures
            r@.len() == vasp_extensions().len(),
            forall|i: int| 0 <= i < r@.len() ==> #[trigger] r@[i]@ == vasp_extensions()[i],
    {
        let r: Vec<&'static str> = vec!["vasp"];
        proof {
            assert(r@[0]@ == vasp_extensions()[0]);
        }
        r
    }

    /// Name of the format, for messages.
    pub fn name(&self) -> (r: &'static str)
        ensures
            r@ == "VASP Parser"@,
    {
        "VASP Parser"
    }

    /// Whether files with extension `extension` are of this format, up to ASCII case.
    pub fn supports(&self, extension: &str) -> (r: bool)
        ensures
            r == supports_spec(vasp_extensions(), extension@),
    {
        let exts = self.supported_extensions();
        let n = exts.len();
        let mut i: usize = 0;
        while i < n
            invariant
                n == exts@.len(),
                n == vasp_extensions().len(),
                i <= n,
                forall|j: int| 0 <= j < n ==> #[trigger] exts@[j]@ == vasp_extensions()[j],
                forall|j: int|
                    0 <= j < i ==> !eq_ignore_ascii_case_spec(
                        #[trigger] vasp_extensions()[j],
                        extension@,
                    ),
            decreases n - i,
        {
            if eq_ignore_ascii_case(exts[i], extension) {
                assert(eq_ignore_ascii_case_spec(vasp_extensions()[i as int], extension@));
                return true;
            }
            i = i + 1;
        }
        false
    }
}

/// Every format the service can read, in order of preference.
pub fn get_all_parsers() -> (r: Vec<VaspParser>)
    ensures
        r@.len() == 1,
{
    vec![VaspParser::new()]
}

/// The formats the service can read; a file is read by the first format that
/// supports its extension.
pub struct ParserRegistry {
    parsers: Vec<VaspParser>,
}

impl ParserRegistry {
    pub closed spec fn format_count(&self) -> nat {
        self.parsers@.len()
    }

    /// A registry of every format from [`get_all_parsers`].
    pub fn new() -> (r: ParserRegistry)
        ensures
            r.format_count() == 1,
    {
        ParserRegistry { parsers: get_all_parsers() }
    }

    /// The first format that supports `extension` (up to ASCII case), if any.
    pub fn find_parser(&self, extension: &str) -> (r: Option<&VaspParser>)
        ensures
            r is Some <==> (self.format_count() > 0 && supports_spec(
                vasp_extensions(),
                extension@,
            )),
    {
        let n = self.parsers.len();
        let mut i: usize = 0;
        while i < n
            invariant
                n == self.parsers@.len(),
                i <= n,
                i > 0 ==> !supports_spec(vasp_extensions(), extension@),
            decreases n - i,
        {
            if self.parsers[i].supports(extension) {
                return Some(&self.parsers[i]);
            }
            i = i + 1;
        }
        None
    }

    /// Every extension read by some format, in lower case, sorted and without repeats.
    pub fn supported_extensions(&self) -> (r: Vec<String>)
        ensures
            strictly_sorted(texts(r@)),
            forall|t: Seq<char>|
                #[trigger] texts(r@).contains(t) <==> (self.format_count() > 0 && lowered_among(
                    t,
                    vasp_extensions().len() as int,
                )),
    {
        let mut out: Vec<String> = Vec::new();
        let n = self.parsers.len();
        let mut p: usize = 0;
        assert(texts(out@) =~= Seq::<Seq<char>>::empty());
        while p < n
            invariant
                n == self.parsers@.len(),
                p <= n,
                strictly_sorted(texts(out@)),
                forall|t: Seq<char>|
                    #[trigger] texts(out@).contains(t) <==> (p > 0 && lowered_among(
                        t,
                        vasp_extensions().len() as int,
                    )),
            decreases n - p,
        {
            let exts = self.parsers[p].supported_extensions();
            let m = exts.len();
            let mut e: usize = 0;
            while e < m
                invariant
                    n == self.parsers@.len(),
                    p < n,
                    m == exts@.len(),
                    m == vasp_extensions().len(),
                    forall|j: int| 0 <= j < m ==> #[trigger] exts@[j]@ == vasp_extensions()[j],
                    e <= m,
                    strictly_sorted(texts(out@)),
                    forall|t: Seq<char>|
                        #[trigger] texts(out@).contains(t) <==> ((p > 0 && lowered_among(
                            t,
                            m as int,
                        )) || lowered_among(t, e as int)),
                decreases m - e,
            {
                let lowered = to_lowercase(exts[e]);
                insert_sorted_unique(&mut out, lowered);
                proof {
                    assert forall|t: Seq<char>|
                        lowered_among(t, e + 1) <==> (lowered_among(t, e as int) || t == lower_of(
                            vasp_extensions()[e as int],
                        )) by {
                        if lowered_among(t, e + 1) {
                            let i = choose|i: int|
                                0 <= i < e + 1 && t == lower_of(#[trigger] vasp_extensions()[i]);
                            if i < e {
                                assert(lowered_among(t, e as int));
                            }
                        }
                        if lowered_among(t, e as int) {
                            let i = choose|i: int|
                                0 <= i < e && t == lower_of(#[trigger] vasp_extensions()[i]);
                            assert(0 <= i < e + 1 && t == lower_of(vasp_extensions()[i]));
                        }
                        if t == lower_of(vasp_extensions()[e as int]) {
                            assert(0 <= e < e + 1 && t == lower_of(vasp_extensions()[e as int]));
                        }
                    }
                }
                e = e + 1;
            }
            p = p + 1;
        }
        out
    }

    /// The format for the file at `file_path`, chosen by its extension, together
    /// with that extension; `None` when the file has no extension or no format
    /// supports it.
    pub fn find_parser_for_file(&self, file_path: &str) -> (r: Option<(&VaspParser, String)>)
        ensures
            match r {
                Some((_, ext)) => path_extension(file_path@) == Some(ext@) && self.format_count()
                    > 0 && supports_spec(vasp_extensions(), ext@),
                None => match path_extension(file_path@) {
                    Some(ext) => self.format_count() == 0 || !supports_spec(
                        vasp_extensions(),
                        ext,
                    ),
                    None => true,
                },
            },
    {
        match file_extension(file_path) {
            Some(ext) => match self.find_parser(ext.as_str()) {
                Some(p) => Some((p, ext)),
                None => None,
            },
            None => None,
        }
    }
}

/// The lower-case form of a text, as `str::to_lowercase` gives it.
pub uninterp spec fn lower_of(s: Seq<char>) -> Seq<char>;

/// Relies on str::to_lowercase: the lower-case form of `s`.
#[verifier::external_body]
fn to_lowercase(s: &str) -> (r: String)
    ensures
        r@ == lower_of(s@),
{
    s.to_lowercase()
}

/// Lexicographic order of texts by character code, as `String`'s `Ord` orders them.
pub open spec fn text_lt(a: Seq<char>, b: Seq<char>) -> bool
    decreases a.len(),
{
    if a.len() == 0 {
        b.len() > 0
    } else if b.len() == 0 {
        false
    } else if a[0] != b[0] {
        a[0] < b[0]
    } else {
        text_lt(a.drop_first(), b.drop_first())
    }
}

proof fn lemma_text_lt_total(a: Seq<char>, b: Seq<char>)
    ensures
        a == b || text_lt(a, b) || text_lt(b, a),
    decreases a.len(),
{
    if a.len() > 0 && b.len() > 0 && a[0] == b[0] {
        lemma_text_lt_total(a.drop_first(), b.drop_first());
        if a.drop_first() == b.drop_first() {
            assert(a =~= seq![a[0]] + a.drop_first());
            assert(b =~= seq![b[0]] + b.drop_first());
        }
    } else if a.len() == 0 && b.len() == 0 {
        assert(a =~= b);
    }
}

proof fn lemma_text_lt_transitive(a: Seq<char>, b: Seq<char>, c: Seq<char>)
    requires
        text_lt(a, b),
        text_lt(b, c),
    ensures
        text_lt(a, c),
    decreases a.len(),
{
    if a.len() > 0 && b.len() > 0 && c.len() > 0 {
        if a[0] == b[0] && b[0] == c[0] {
            lemma_text_lt_transitive(a.drop_first(), b.drop_first(), c.drop_first());
        }
    }
}

/// Whether `a` comes strictly before `b` in the order of texts.
fn text_less(a: &String, b: &String) -> (r: bool)
    ensures
        r == text_lt(a@, b@),
{
    let n = a.as_str().unicode_len();
    let m = b.as_str().unicode_len();
    let mut i: usize = 0;
    assert(a@.subrange(0, n as int) =~= a@);
    assert(b@.subrange(0, m as int) =~= b@);
    while i < n && i < m
        invariant
            n == a@.len(),
            m == b@.len(),
            i <= n,
            i <= m,
            text_lt(a@, b@) == text_lt(a@.subrange(i as int, n as int), b@.subrange(i as int, m as int)),
        decreases n - i,
    {
        let x = a.as_str().get_char(i);
        let y = b.as_str().get_char(i);
        let ghost sa = a@.subrange(i as int, n as int);
        let ghost sb = b@.subrange(i as int, m as int);
        assert(sa[0] == x && sb[0] == y);
        if x != y {
            return x < y;
        }
        assert(sa.drop_first() =~= a@.subrange(i + 1, n as int));
        assert(sb.drop_first() =~= b@.subrange(i + 1, m as int));
        i = i + 1;
    }
    i == n && i < m
}

/// `t` is the lower-case form of one of the first `k` VASP extensions.
pub open spec fn lowered_among(t: Seq<char>, k: int) -> bool {
    exists|i: int| 0 <= i < k && t == lower_of(#[trigger] vasp_extensions()[i])
}

/// The texts held by a list of strings.
pub open spec fn texts(v: Seq<String>) -> Seq<Seq<char>> {
    v.map_values(|t: String| t@)
}

/// `s` is strictly increasing in the order of texts (so holds no text twice).
pub open spec fn strictly_sorted(s: Seq<Seq<char>>) -> bool {
    forall|i: int, j: int| 0 <= i < j < s.len() ==> text_lt(#[trigger] s[i], #[trigger] s[j])
}

/// Inserts `x` into the strictly sorted list `v` unless it is there already.
fn insert_sorted_unique(v: &mut Vec<String>, x: String)
    requires
        strictly_sorted(texts(old(v)@)),
    ensures
        strictly_sorted(texts(final(v)@)),
        forall|t: Seq<char>|
            #[trigger] texts(final(v)@).contains(t) <==> (texts(old(v)@).contains(t) || t == x@),
{
    let ghost s0 = texts(v@);
    let n = v.len();
    let mut i: usize = 0;
    while i < n && text_less(&v[i], &x)
        invariant
            n == v@.len(),
            s0 == texts(v@),
            i <= n,
            forall|j: int| 0 <= j < i ==> text_lt(#[trigger] s0[j], x@),
        decreases n - i,
    {
        i = i + 1;
    }
    if i < n && v[i] == x {
        assert(s0[i as int] == x@);
        assert(s0.contains(x@));
        return;
    }
    let ghost k = i as int;
    assert(k == n || text_lt(x@, s0[k])) by {
        if k < n {
            lemma_text_lt_total(s0[k], x@);
        }
    }
    v.insert(i, x);
    let ghost s1 = texts(v@);
    assert(s1 =~= s0.insert(k, x@));
    assert forall|a: int, b: int| 0 <= a < b < s1.len() implies text_lt(
        #[trigger] s1[a],
        #[trigger] s1[b],
    ) by {
        if b < k {
        } else if b == k {
        } else if a < k {
            assert(s1[b] == s0[b - 1]);
            if b - 1 > a {
            }
        } else if a == k {
            assert(s1[b] == s0[b - 1]);
            if b - 1 > k {
                lemma_text_lt_transitive(x@, s0[k], s0[b - 1]);
            }
        } else {
            assert(s1[a] == s0[a - 1] && s1[b] == s0[b - 1]);
        }
    }
    assert forall|t: Seq<char>| s1.contains(t) <==> (s0.contains(t) || t == x@) by {
        if s0.contains(t) {
            let j = choose|j: int| 0 <= j < s0.len() && s0[j] == t;
            if j < k {
                assert(s1[j] == t);
            } else {
                assert(s1[j + 1] == t);
            }
        }
        if s1.contains(t) {
            let j = choose|j: int| 0 <= j < s1.len() && s1[j] == t;
            if j < k {
                assert(s0[j] == t);
            } else if j > k {
                assert(s0[j - 1] == t);
            }
        }
        if t == x@ {
            assert(s1[k] == t);
        }
    }
}

/// The path of `file` inside the resource directory `dir`.
pub fn resource_path(dir: &str, file: &str) -> (r: String)
    ensures
        r@ == dir@ + seq!['/'] + file@,
{
    let r = String::from_str(dir).concat("/").concat(file);
    proof {
        reveal_strlit("/");
    }
    r
}

} // verus!
