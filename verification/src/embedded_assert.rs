//! The embedded `edge://assert` and `edge://http` modules: the CLI import
//! aliases that point at them, and which module source answers which
//! specifier.

use vstd::prelude::*;
use vstd::string::StringSliceAdditionalSpecFns;
use vstd::utf8::{
    encode_utf8, length_of_first_scalar, pop_first_scalar, valid_first_scalar, valid_utf8,
};

use crate::text::{
    lemma_replace_leaves_no_copy, lemma_replace_prefix, occurs_at, occurs_nowhere, replace_all,
    replace_bytes, separated,
};

verus! {

/// What `String::from_utf8_lossy` makes of `bytes`, encoded back to bytes.
pub uninterp spec fn utf8_lossy(bytes: Seq<u8>) -> Seq<u8>;

/// `String::from_utf8_lossy`, back to bytes: the input with every invalid
/// sequence replaced by U+FFFD, so always valid UTF-8; valid UTF-8 comes
/// back unchanged.
#[verifier::external_body]
fn lossy_utf8(content: Vec<u8>) -> (r: Vec<u8>)
    ensures
        r@ == utf8_lossy(content@),
        valid_utf8(r@),
        valid_utf8(content@) ==> r@ == content@,
{
    String::from_utf8_lossy(&content).into_owned().into_bytes()
}

/// The UTF-8 bytes of `s`.
pub fn bytes_of(s: &str) -> (r: Vec<u8>)
    ensures
        r@ == s.spec_bytes(),
{
    let b = s.as_bytes();
    let mut r: Vec<u8> = Vec::new();
    let mut i: usize = 0;
    while i < b.len()
        invariant
            i <= b@.len(),
            b@ == s.spec_bytes(),
            r@ == b@.take(i as int),
        decreases b@.len() - i,
    {
        r.push(b[i]);
        proof {
            assert(b@.take(i + 1) == b@.take(i as int).push(b@[i as int]));
        }
        i = i + 1;
    }
    proof {
        assert(b@.take(b@.len() as int) == b@);
    }
    r
}

/// Local CLI shorthand for the embedded assert module.
pub const THUNDER_TESTING_ALIAS: &'static str = "thunder:testing";
/// Local CLI shorthand for the embedded http module.
pub const THUNDER_HTTP_ALIAS: &'static str = "thunder:http";
/// Specifier of the embedded assert module.
pub const EDGE_ASSERT_MOD_SPECIFIER: &'static str = "edge://assert/mod.ts";
/// Specifier of the embedded http module.
pub const EDGE_HTTP_MOD_SPECIFIER: &'static str = "edge://http/mod.ts";

/// `content` (read as UTF-8, invalid sequences replaced) with the CLI
/// aliases turned into the embedded module specifiers.
pub open spec fn rewritten_imports(content: Seq<u8>) -> Seq<u8> {
    replace_all(
        replace_all(utf8_lossy(content), encode_utf8("thunder:testing"@), encode_utf8("edge://assert/mod.ts"@)),
        encode_utf8("thunder:http"@),
        encode_utf8("edge://http/mod.ts"@),
    )
}

/// Valid UTF-8 `content` with the aliases turned into the embedded module
/// specifiers.
pub open spec fn rewritten_valid(content: Seq<u8>) -> Seq<u8> {
    replace_all(
        replace_all(content, encode_utf8("thunder:testing"@), encode_utf8("edge://assert/mod.ts"@)),
        encode_utf8("thunder:http"@),
        encode_utf8("edge://http/mod.ts"@),
    )
}

/// Rewrites the `thunder:testing` and `thunder:http` import aliases to the
/// embedded module specifiers. The result is valid UTF-8 and holds no alias,
/// so rewriting it again gives it back unchanged.
pub fn rewrite_edge_assert_imports(content: Vec<u8>) -> (r: Vec<u8>)
    ensures
        r@ == rewritten_imports(content@),
        valid_utf8(content@) ==> r@ == rewritten_valid(content@),
        valid_utf8(r@),
        rewritten_valid(r@) == r@,
{
    proof {
        reveal_strlit("thunder:testing");
        reveal_strlit("thunder:http");
        reveal_strlit("edge://assert/mod.ts");
        reveal_strlit("edge://http/mod.ts");
    }
    let text = lossy_utf8(content);
    let testing = bytes_of(THUNDER_TESTING_ALIAS);
    let assert_mod = bytes_of(EDGE_ASSERT_MOD_SPECIFIER);
    let http = bytes_of(THUNDER_HTTP_ALIAS);
    let http_mod = bytes_of(EDGE_HTTP_MOD_SPECIFIER);
    proof {
        broadcast use vstd::string::is_ascii_spec_bytes;
        assert(vstd::string::is_ascii(THUNDER_TESTING_ALIAS));
        assert(vstd::string::is_ascii(THUNDER_HTTP_ALIAS));
        assert(testing@.len() > 0);
        assert(http@.len() > 0);
    }
    let step = replace_bytes(&text, &testing, &assert_mod);
    let r = replace_bytes(&step, &http, &http_mod);
    proof {
        lemma_aliases_separated();
        lemma_replace_keeps_utf8(text@, testing@, assert_mod@);
        lemma_replace_keeps_utf8(step@, http@, http_mod@);
        lemma_rewrite_idempotent(text@);
    }
    r
}

proof fn lemma_replace_absent<A>(s: Seq<A>, pat: Seq<A>, rep: Seq<A>)
    requires
        pat.len() > 0,
        occurs_nowhere(s, pat),
    ensures
        replace_all(s, pat, rep) == s,
    decreases s.len(),
{
    if s.len() >= pat.len() {
        assert(s.subrange(0, 0 + pat.len() as int) != pat);
        assert(s.take(pat.len() as int) =~= s.subrange(0, 0 + pat.len() as int));
        let rest = s.skip(1);
        assert forall|i: int| 0 <= i <= rest.len() - pat.len() implies
            #[trigger] rest.subrange(i, i + pat.len()) != pat by {
            assert(rest.subrange(i, i + pat.len()) =~= s.subrange(i + 1, i + 1 + pat.len()));
        }
        lemma_replace_absent(rest, pat, rep);
        assert(seq![s[0]] + rest =~= s);
        assert(replace_all(s, pat, rep) == seq![s[0]] + replace_all(rest, pat, rep));
    }
}

/// Text that is valid UTF-8 and holds neither alias comes back unchanged
/// (`rewrite_edge_assert_imports` gives `rewritten_valid` of valid text).
pub proof fn lemma_rewrite_keeps_alias_free_text(content: Seq<u8>)
    requires
        occurs_nowhere(content, encode_utf8("thunder:testing"@)),
        occurs_nowhere(content, encode_utf8("thunder:http"@)),
    ensures
        rewritten_valid(content) == content,
{
    reveal_strlit("thunder:testing");
    reveal_strlit("thunder:http");
    broadcast use vstd::string::is_ascii_spec_bytes;
    let t = encode_utf8("thunder:testing"@);
    let h = encode_utf8("thunder:http"@);
    assert(vstd::string::is_ascii("thunder:testing"));
    assert(vstd::string::is_ascii("thunder:http"));
    assert(t == "thunder:testing".spec_bytes());
    assert(h == "thunder:http".spec_bytes());
    lemma_replace_absent(content, t, encode_utf8("edge://assert/mod.ts"@));
    lemma_replace_absent(content, h, encode_utf8("edge://http/mod.ts"@));
}

/// The aliases and specifiers are ASCII, and each alias is kept apart from
/// each specifier that can stand after a rewrite.
proof fn lemma_aliases_separated()
    ensures
        separated(encode_utf8("thunder:testing"@), encode_utf8("edge://assert/mod.ts"@)),
        separated(encode_utf8("thunder:http"@), encode_utf8("edge://http/mod.ts"@)),
        separated(encode_utf8("thunder:testing"@), encode_utf8("edge://http/mod.ts"@)),
        all_ascii(encode_utf8("thunder:testing"@)),
        all_ascii(encode_utf8("thunder:http"@)),
        all_ascii(encode_utf8("edge://assert/mod.ts"@)),
        all_ascii(encode_utf8("edge://http/mod.ts"@)),
{
    broadcast use vstd::string::is_ascii_spec_bytes;
    reveal_strlit("thunder:testing");
    reveal_strlit("thunder:http");
    reveal_strlit("edge://assert/mod.ts");
    reveal_strlit("edge://http/mod.ts");
    assert(vstd::string::is_ascii("thunder:testing"));
    assert(encode_utf8("thunder:testing"@) == "thunder:testing".spec_bytes());
    assert(encode_utf8("thunder:testing"@) =~= seq![116u8, 104u8, 117u8, 110u8, 100u8, 101u8, 114u8, 58u8, 116u8, 101u8, 115u8, 116u8, 105u8, 110u8, 103u8]);
    assert(vstd::string::is_ascii("thunder:http"));
    assert(encode_utf8("thunder:http"@) == "thunder:http".spec_bytes());
    assert(encode_utf8("thunder:http"@) =~= seq![116u8, 104u8, 117u8, 110u8, 100u8, 101u8, 114u8, 58u8, 104u8, 116u8, 116u8, 112u8]);
    assert(vstd::string::is_ascii("edge://assert/mod.ts"));
    assert(encode_utf8("edge://assert/mod.ts"@) == "edge://assert/mod.ts".spec_bytes());
    assert(encode_utf8("edge://assert/mod.ts"@) =~= seq![101u8, 100u8, 103u8, 101u8, 58u8, 47u8, 47u8, 97u8, 115u8, 115u8, 101u8, 114u8, 116u8, 47u8, 109u8, 111u8, 100u8, 46u8, 116u8, 115u8]);
    assert(vstd::string::is_ascii("edge://http/mod.ts"));
    assert(encode_utf8("edge://http/mod.ts"@) == "edge://http/mod.ts".spec_bytes());
    assert(encode_utf8("edge://http/mod.ts"@) =~= seq![101u8, 100u8, 103u8, 101u8, 58u8, 47u8, 47u8, 104u8, 116u8, 116u8, 112u8, 47u8, 109u8, 111u8, 100u8, 46u8, 116u8, 115u8]);
}

/// Rewriting rewritten text again changes nothing: after one pass neither
/// alias is left, and neither specifier holds one.
pub proof fn lemma_rewrite_idempotent(content: Seq<u8>)
    ensures
        rewritten_valid(rewritten_valid(content)) == rewritten_valid(content),
{
    lemma_aliases_separated();
    let t = encode_utf8("thunder:testing"@);
    let h = encode_utf8("thunder:http"@);
    let a = encode_utf8("edge://assert/mod.ts"@);
    let m = encode_utf8("edge://http/mod.ts"@);
    let once = replace_all(content, t, a);
    lemma_replace_leaves_no_copy(content, t, a, t);
    lemma_replace_leaves_no_copy(once, h, m, h);
    lemma_replace_leaves_no_copy(once, h, m, t);
    let twice = replace_all(once, h, m);
    lemma_replace_absent(twice, t, a);
    lemma_replace_absent(twice, h, m);
}

/// Every byte of `s` is ASCII.
pub open spec fn all_ascii(s: Seq<u8>) -> bool {
    forall|i: int| 0 <= i < s.len() ==> #[trigger] s[i] < 0x80
}

proof fn lemma_ascii_first_scalar(x: Seq<u8>)
    requires
        x.len() > 0,
        x[0] < 0x80,
    ensures
        valid_first_scalar(x),
        length_of_first_scalar(x) == 1,
{
    let b = x[0];
    assert(b & 0x7f == b) by (bit_vector)
        requires
            b < 0x80u8,
    ;
}

/// ASCII in front of `b` neither makes nor spoils valid UTF-8.
proof fn lemma_ascii_prefix_utf8(a: Seq<u8>, b: Seq<u8>)
    requires
        all_ascii(a),
    ensures
        valid_utf8(a + b) == valid_utf8(b),
    decreases a.len(),
{
    if a.len() == 0 {
        assert(a + b =~= b);
    } else {
        let x = a + b;
        assert(x[0] == a[0]);
        lemma_ascii_first_scalar(x);
        assert(pop_first_scalar(x) =~= a.skip(1) + b);
        lemma_ascii_prefix_utf8(a.skip(1), b);
    }
}

/// The first scalar of valid text, followed by valid UTF-8, is valid UTF-8.
proof fn lemma_scalar_prefix_utf8(s: Seq<u8>, z: Seq<u8>)
    requires
        s.len() > 0,
        valid_first_scalar(s),
        valid_utf8(z),
    ensures
        valid_utf8(s.take(length_of_first_scalar(s)) + z),
{
    let w = length_of_first_scalar(s);
    let x = s.take(w) + z;
    assert(x[0] == s[0]);
    if w >= 2 {
        assert(x[1] == s[1]);
    }
    if w >= 3 {
        assert(x[2] == s[2]);
    }
    if w >= 4 {
        assert(x[3] == s[3]);
    }
    assert(valid_first_scalar(x));
    assert(pop_first_scalar(x) =~= z);
}

/// Replacing an ASCII pattern by ASCII text keeps UTF-8 valid.
proof fn lemma_replace_keeps_utf8(s: Seq<u8>, pat: Seq<u8>, rep: Seq<u8>)
    requires
        pat.len() > 0,
        all_ascii(pat),
        all_ascii(rep),
        valid_utf8(s),
    ensures
        valid_utf8(replace_all(s, pat, rep)),
    decreases s.len(),
{
    if s.len() < pat.len() {
    } else if s.take(pat.len() as int) == pat {
        let rest = s.skip(pat.len() as int);
        assert(pat + rest =~= s);
        lemma_ascii_prefix_utf8(pat, rest);
        lemma_replace_keeps_utf8(rest, pat, rep);
        lemma_ascii_prefix_utf8(rep, replace_all(rest, pat, rep));
    } else {
        let w = length_of_first_scalar(s);
        assert forall|i: int| 0 <= i < w implies !#[trigger] occurs_at(s, pat, i) by {
            if i == 0 {
                assert(s.subrange(0, pat.len() as int) =~= s.take(pat.len() as int));
            } else if occurs_at(s, pat, i) {
                assert(s[i] == s.subrange(i, i + pat.len())[0]);
                assert(pat[0] < 0x80);
            }
        }
        lemma_replace_prefix(s, pat, rep, w);
        let rest = s.skip(w);
        assert(rest =~= pop_first_scalar(s));
        lemma_replace_keeps_utf8(rest, pat, rep);
        lemma_scalar_prefix_utf8(s, replace_all(rest, pat, rep));
    }
}

/// The sources of the embedded modules.
#[derive(Debug)]
pub struct EmbeddedSources {
    pub assert_user_mod: String,
    pub assert_mod: String,
    pub assert_assert: String,
    pub assert_mock_mod: String,
    pub assert_mock_fn: String,
    pub assert_mock_spy: String,
    pub assert_mock_fetch: String,
    pub assert_mock_time: String,
    pub http_user_mod: String,
    pub http_mod: String,
    pub http_http: String,
}

/// `text`'s bytes with every `pat` replaced by `rep`.
pub open spec fn replaced(text: Seq<char>, pat: Seq<char>, rep: Seq<char>) -> Seq<u8> {
    replace_all(encode_utf8(text), encode_utf8(pat), encode_utf8(rep))
}

/// The bytes served for `specifier`: an embedded source as it is, or with its
/// relative imports pointed at `edge://assert/mock/`; none for any other
/// specifier.
pub open spec fn embedded_module(specifier: Seq<char>, src: EmbeddedSources) -> Option<Seq<u8>> {
    if specifier == "edge://assert/mod.ts"@ {
        Some(encode_utf8(src.assert_user_mod@))
    } else if specifier == "edge://assert/assert.ts"@ {
        Some(encode_utf8(src.assert_assert@))
    } else if specifier == "edge://assert/mock/mod.ts"@ {
        Some(encode_utf8(src.assert_mock_mod@))
    } else if specifier == "edge://assert/mock/mockFn.ts"@ {
        Some(encode_utf8(src.assert_mock_fn@))
    } else if specifier == "edge://assert/mock/spy.ts"@ {
        Some(encode_utf8(src.assert_mock_spy@))
    } else if specifier == "edge://assert/mock/fetch.ts"@ {
        Some(encode_utf8(src.assert_mock_fetch@))
    } else if specifier == "edge://assert/mock/time.ts"@ {
        Some(encode_utf8(src.assert_mock_time@))
    } else if specifier == "edge://http/mod.ts"@ {
        Some(encode_utf8(src.http_user_mod@))
    } else if specifier == "edge://http/http.ts"@ {
        Some(encode_utf8(src.http_http@))
    } else if specifier == "ext:edge_assert/mod.ts"@ {
        Some(encode_utf8(src.assert_mod@))
    } else if specifier == "ext:edge_http/mod.ts"@ {
        Some(encode_utf8(src.http_mod@))
    } else if specifier == "ext:edge_http/http.ts"@ {
        Some(encode_utf8(src.http_http@))
    } else if specifier == "ext:edge_assert/assert.ts"@ {
        Some(replaced(src.assert_assert@, "\"./mock/mod.ts\""@, "\"edge://assert/mock/mod.ts\""@))
    } else if specifier == "ext:edge_assert/mock/mod.ts"@ {
        let a = replace_all(
            encode_utf8(src.assert_mock_mod@),
            encode_utf8("\"./mockFn.ts\""@),
            encode_utf8("\"edge://assert/mock/mockFn.ts\""@),
        );
        let b = replace_all(a, encode_utf8("\"./spy.ts\""@), encode_utf8("\"edge://assert/mock/spy.ts\""@));
        let c = replace_all(b, encode_utf8("\"./fetch.ts\""@), encode_utf8("\"edge://assert/mock/fetch.ts\""@));
        Some(replace_all(c, encode_utf8("\"./time.ts\""@), encode_utf8("\"edge://assert/mock/time.ts\""@)))
    } else if specifier == "ext:edge_assert/mock/mockFn.ts"@ {
        Some(encode_utf8(src.assert_mock_fn@))
    } else if specifier == "ext:edge_assert/mock/spy.ts"@ {
        Some(replaced(src.assert_mock_spy@, "\"./mockFn.ts\""@, "\"edge://assert/mock/mockFn.ts\""@))
    } else if specifier == "ext:edge_assert/mock/fetch.ts"@ {
        Some(replaced(src.assert_mock_fetch@, "\"./mockFn.ts\""@, "\"edge://assert/mock/mockFn.ts\""@))
    } else if specifier == "ext:edge_assert/mock/time.ts"@ {
        Some(encode_utf8(src.assert_mock_time@))
    } else {
        None
    }
}

fn same(a: &str, b: &str) -> (r: bool)
    ensures
        r == (a@ == b@),
{
    a.to_owned() == b.to_owned()
}

/// `text`'s bytes with every `pat` replaced by `rep` (`pat` is ASCII and not empty).
fn replace_in(text: &Vec<u8>, pat: &str, rep: &str) -> (r: Vec<u8>)
    requires
        vstd::string::is_ascii(pat),
        pat@.len() > 0,
    ensures
        r@ == replace_all(text@, encode_utf8(pat@), encode_utf8(rep@)),
{
    let p = bytes_of(pat);
    let q = bytes_of(rep);
    proof {
        broadcast use vstd::string::is_ascii_spec_bytes;
        assert(p@.len() > 0);
    }
    replace_bytes(text, &p, &q)
}

/// The specifiers the loader knows are pairwise different.
#[verifier::spinoff_prover]
proof fn lemma_specifiers_distinct()
    ensures
        "edge://assert/assert.ts"@ != "edge://assert/mod.ts"@,
        "edge://assert/mock/mod.ts"@ != "edge://assert/mod.ts"@,
        "edge://assert/mock/mod.ts"@ != "edge://assert/assert.ts"@,
        "edge://assert/mock/mockFn.ts"@ != "edge://assert/mod.ts"@,
        "edge://assert/mock/mockFn.ts"@ != "edge://assert/assert.ts"@,
        "edge://assert/mock/mockFn.ts"@ != "edge://assert/mock/mod.ts"@,
        "edge://assert/mock/spy.ts"@ != "edge://assert/mod.ts"@,
        "edge://assert/mock/spy.ts"@ != "edge://assert/assert.ts"@,
        "edge://assert/mock/spy.ts"@ != "edge://assert/mock/mod.ts"@,
        "edge://assert/mock/spy.ts"@ != "edge://assert/mock/mockFn.ts"@,
        "edge://assert/mock/fetch.ts"@ != "edge://assert/mod.ts"@,
        "edge://assert/mock/fetch.ts"@ != "edge://assert/assert.ts"@,
        "edge://assert/mock/fetch.ts"@ != "edge://assert/mock/mod.ts"@,
        "edge://assert/mock/fetch.ts"@ != "edge://assert/mock/mockFn.ts"@,
        "edge://assert/mock/fetch.ts"@ != "edge://assert/mock/spy.ts"@,
        "edge://assert/mock/time.ts"@ != "edge://assert/mod.ts"@,
        "edge://assert/mock/time.ts"@ != "edge://assert/assert.ts"@,
        "edge://assert/mock/time.ts"@ != "edge://assert/mock/mod.ts"@,
        "edge://assert/mock/time.ts"@ != "edge://assert/mock/mockFn.ts"@,
        "edge://assert/mock/time.ts"@ != "edge://assert/mock/spy.ts"@,
        "edge://assert/mock/time.ts"@ != "edge://assert/mock/fetch.ts"@,
        "edge://http/mod.ts"@ != "edge://assert/mod.ts"@,
        "edge://http/mod.ts"@ != "edge://assert/assert.ts"@,
        "edge://http/mod.ts"@ != "edge://assert/mock/mod.ts"@,
        "edge://http/mod.ts"@ != "edge://assert/mock/mockFn.ts"@,
        "edge://http/mod.ts"@ != "edge://assert/mock/spy.ts"@,
        "edge://http/mod.ts"@ != "edge://assert/mock/fetch.ts"@,
        "edge://http/mod.ts"@ != "edge://assert/mock/time.ts"@,
        "edge://http/http.ts"@ != "edge://assert/mod.ts"@,
        "edge://http/http.ts"@ != "edge://assert/assert.ts"@,
        "edge://http/http.ts"@ != "edge://assert/mock/mod.ts"@,
        "edge://http/http.ts"@ != "edge://assert/mock/mockFn.ts"@,
        "edge://http/http.ts"@ != "edge://assert/mock/spy.ts"@,
        "edge://http/http.ts"@ != "edge://assert/mock/fetch.ts"@,
        "edge://http/http.ts"@ != "edge://assert/mock/time.ts"@,
        "edge://http/http.ts"@ != "edge://http/mod.ts"@,
        "ext:edge_assert/mod.ts"@ != "edge://assert/mod.ts"@,
        "ext:edge_assert/mod.ts"@ != "edge://assert/assert.ts"@,
        "ext:edge_assert/mod.ts"@ != "edge://assert/mock/mod.ts"@,
        "ext:edge_assert/mod.ts"@ != "edge://assert/mock/mockFn.ts"@,
        "ext:edge_assert/mod.ts"@ != "edge://assert/mock/spy.ts"@,
        "ext:edge_assert/mod.ts"@ != "edge://assert/mock/fetch.ts"@,
        "ext:edge_assert/mod.ts"@ != "edge://assert/mock/time.ts"@,
        "ext:edge_assert/mod.ts"@ != "edge://http/mod.ts"@,
        "ext:edge_assert/mod.ts"@ != "edge://http/http.ts"@,
        "ext:edge_http/mod.ts"@ != "edge://assert/mod.ts"@,
        "ext:edge_http/mod.ts"@ != "edge://assert/assert.ts"@,
        "ext:edge_http/mod.ts"@ != "edge://assert/mock/mod.ts"@,
        "ext:edge_http/mod.ts"@ != "edge://assert/mock/mockFn.ts"@,
        "ext:edge_http/mod.ts"@ != "edge://assert/mock/spy.ts"@,
        "ext:edge_http/mod.ts"@ != "edge://assert/mock/fetch.ts"@,
        "ext:edge_http/mod.ts"@ != "edge://assert/mock/time.ts"@,
        "ext:edge_http/mod.ts"@ != "edge://http/mod.ts"@,
        "ext:edge_http/mod.ts"@ != "edge://http/http.ts"@,
        "ext:edge_http/mod.ts"@ != "ext:edge_assert/mod.ts"@,
        "ext:edge_http/http.ts"@ != "edge://assert/mod.ts"@,
        "ext:edge_http/http.ts"@ != "edge://assert/assert.ts"@,
        "ext:edge_http/http.ts"@ != "edge://assert/mock/mod.ts"@,
        "ext:edge_http/http.ts"@ != "edge://assert/mock/mockFn.ts"@,
        "ext:edge_http/http.ts"@ != "edge://assert/mock/spy.ts"@,
        "ext:edge_http/http.ts"@ != "edge://assert/mock/fetch.ts"@,
        "ext:edge_http/http.ts"@ != "edge://assert/mock/time.ts"@,
        "ext:edge_http/http.ts"@ != "edge://http/mod.ts"@,
        "ext:edge_http/http.ts"@ != "edge://http/http.ts"@,
        "ext:edge_http/http.ts"@ != "ext:edge_assert/mod.ts"@,
        "ext:edge_http/http.ts"@ != "ext:edge_http/mod.ts"@,
        "ext:edge_assert/assert.ts"@ != "edge://assert/mod.ts"@,
        "ext:edge_assert/assert.ts"@ != "edge://assert/assert.ts"@,
        "ext:edge_assert/assert.ts"@ != "edge://assert/mock/mod.ts"@,
        "ext:edge_assert/assert.ts"@ != "edge://assert/mock/mockFn.ts"@,
        "ext:edge_assert/assert.ts"@ != "edge://assert/mock/spy.ts"@,
        "ext:edge_assert/assert.ts"@ != "edge://assert/mock/fetch.ts"@,
        "ext:edge_assert/assert.ts"@ != "edge://assert/mock/time.ts"@,
        "ext:edge_assert/assert.ts"@ != "edge://http/mod.ts"@,
        "ext:edge_assert/assert.ts"@ != "edge://http/http.ts"@,
        "ext:edge_assert/assert.ts"@ != "ext:edge_assert/mod.ts"@,
        "ext:edge_assert/assert.ts"@ != "ext:edge_http/mod.ts"@,
        "ext:edge_assert/assert.ts"@ != "ext:edge_http/http.ts"@,
        "ext:edge_assert/mock/mod.ts"@ != "edge://assert/mod.ts"@,
        "ext:edge_assert/mock/mod.ts"@ != "edge://assert/assert.ts"@,
        "ext:edge_assert/mock/mod.ts"@ != "edge://assert/mock/mod.ts"@,
        "ext:edge_assert/mock/mod.ts"@ != "edge://assert/mock/mockFn.ts"@,
        "ext:edge_assert/mock/mod.ts"@ != "edge://assert/mock/spy.ts"@,
        "ext:edge_assert/mock/mod.ts"@ != "edge://assert/mock/fetch.ts"@,
        "ext:edge_assert/mock/mod.ts"@ != "edge://assert/mock/time.ts"@,
        "ext:edge_assert/mock/mod.ts"@ != "edge://http/mod.ts"@,
        "ext:edge_assert/mock/mod.ts"@ != "edge://http/http.ts"@,
        "ext:edge_assert/mock/mod.ts"@ != "ext:edge_assert/mod.ts"@,
        "ext:edge_assert/mock/mod.ts"@ != "ext:edge_http/mod.ts"@,
        "ext:edge_assert/mock/mod.ts"@ != "ext:edge_http/http.ts"@,
        "ext:edge_assert/mock/mod.ts"@ != "ext:edge_assert/assert.ts"@,
        "ext:edge_assert/mock/mockFn.ts"@ != "edge://assert/mod.ts"@,
        "ext:edge_assert/mock/mockFn.ts"@ != "edge://assert/assert.ts"@,
        "ext:edge_assert/mock/mockFn.ts"@ != "edge://assert/mock/mod.ts"@,
        "ext:edge_assert/mock/mockFn.ts"@ != "edge://assert/mock/mockFn.ts"@,
        "ext:edge_assert/mock/mockFn.ts"@ != "edge://assert/mock/spy.ts"@,
        "ext:edge_assert/mock/mockFn.ts"@ != "edge://assert/mock/fetch.ts"@,
        "ext:edge_assert/mock/mockFn.ts"@ != "edge://assert/mock/time.ts"@,
        "ext:edge_assert/mock/mockFn.ts"@ != "edge://http/mod.ts"@,
        "ext:edge_assert/mock/mockFn.ts"@ != "edge://http/http.ts"@,
        "ext:edge_assert/mock/mockFn.ts"@ != "ext:edge_assert/mod.ts"@,
        "ext:edge_assert/mock/mockFn.ts"@ != "ext:edge_http/mod.ts"@,
        "ext:edge_assert/mock/mockFn.ts"@ != "ext:edge_http/http.ts"@,
        "ext:edge_assert/mock/mockFn.ts"@ != "ext:edge_assert/assert.ts"@,
        "ext:edge_assert/mock/mockFn.ts"@ != "ext:edge_assert/mock/mod.ts"@,
        "ext:edge_assert/mock/spy.ts"@ != "edge://assert/mod.ts"@,
        "ext:edge_assert/mock/spy.ts"@ != "edge://assert/assert.ts"@,
        "ext:edge_assert/mock/spy.ts"@ != "edge://assert/mock/mod.ts"@,
        "ext:edge_assert/mock/spy.ts"@ != "edge://assert/mock/mockFn.ts"@,
        "ext:edge_assert/mock/spy.ts"@ != "edge://assert/mock/spy.ts"@,
        "ext:edge_assert/mock/spy.ts"@ != "edge://assert/mock/fetch.ts"@,
        "ext:edge_assert/mock/spy.ts"@ != "edge://assert/mock/time.ts"@,
        "ext:edge_assert/mock/spy.ts"@ != "edge://http/mod.ts"@,
        "ext:edge_assert/mock/spy.ts"@ != "edge://http/http.ts"@,
        "ext:edge_assert/mock/spy.ts"@ != "ext:edge_assert/mod.ts"@,
        "ext:edge_assert/mock/spy.ts"@ != "ext:edge_http/mod.ts"@,
        "ext:edge_assert/mock/spy.ts"@ != "ext:edge_http/http.ts"@,
        "ext:edge_assert/mock/spy.ts"@ != "ext:edge_assert/assert.ts"@,
        "ext:edge_assert/mock/spy.ts"@ != "ext:edge_assert/mock/mod.ts"@,
        "ext:edge_assert/mock/spy.ts"@ != "ext:edge_assert/mock/mockFn.ts"@,
        "ext:edge_assert/mock/fetch.ts"@ != "edge://assert/mod.ts"@,
        "ext:edge_assert/mock/fetch.ts"@ != "edge://assert/assert.ts"@,
        "ext:edge_assert/mock/fetch.ts"@ != "edge://assert/mock/mod.ts"@,
        "ext:edge_assert/mock/fetch.ts"@ != "edge://assert/mock/mockFn.ts"@,
        "ext:edge_assert/mock/fetch.ts"@ != "edge://assert/mock/spy.ts"@,
        "ext:edge_assert/mock/fetch.ts"@ != "edge://assert/mock/fetch.ts"@,
        "ext:edge_assert/mock/fetch.ts"@ != "edge://assert/mock/time.ts"@,
        "ext:edge_assert/mock/fetch.ts"@ != "edge://http/mod.ts"@,
        "ext:edge_assert/mock/fetch.ts"@ != "edge://http/http.ts"@,
        "ext:edge_assert/mock/fetch.ts"@ != "ext:edge_assert/mod.ts"@,
        "ext:edge_assert/mock/fetch.ts"@ != "ext:edge_http/mod.ts"@,
        "ext:edge_assert/mock/fetch.ts"@ != "ext:edge_http/http.ts"@,
        "ext:edge_assert/mock/fetch.ts"@ != "ext:edge_assert/assert.ts"@,
        "ext:edge_assert/mock/fetch.ts"@ != "ext:edge_assert/mock/mod.ts"@,
        "ext:edge_assert/mock/fetch.ts"@ != "ext:edge_assert/mock/mockFn.ts"@,
        "ext:edge_assert/mock/fetch.ts"@ != "ext:edge_assert/mock/spy.ts"@,
        "ext:edge_assert/mock/time.ts"@ != "edge://assert/mod.ts"@,
        "ext:edge_assert/mock/time.ts"@ != "edge://assert/assert.ts"@,
        "ext:edge_assert/mock/time.ts"@ != "edge://assert/mock/mod.ts"@,
        "ext:edge_assert/mock/time.ts"@ != "edge://assert/mock/mockFn.ts"@,
        "ext:edge_assert/mock/time.ts"@ != "edge://assert/mock/spy.ts"@,
        "ext:edge_assert/mock/time.ts"@ != "edge://assert/mock/fetch.ts"@,
        "ext:edge_assert/mock/time.ts"@ != "edge://assert/mock/time.ts"@,
        "ext:edge_assert/mock/time.ts"@ != "edge://http/mod.ts"@,
        "ext:edge_assert/mock/time.ts"@ != "edge://http/http.ts"@,
        "ext:edge_assert/mock/time.ts"@ != "ext:edge_assert/mod.ts"@,
        "ext:edge_assert/mock/time.ts"@ != "ext:edge_http/mod.ts"@,
        "ext:edge_assert/mock/time.ts"@ != "ext:edge_http/http.ts"@,
        "ext:edge_assert/mock/time.ts"@ != "ext:edge_assert/assert.ts"@,
        "ext:edge_assert/mock/time.ts"@ != "ext:edge_assert/mock/mod.ts"@,
        "ext:edge_assert/mock/time.ts"@ != "ext:edge_assert/mock/mockFn.ts"@,
        "ext:edge_assert/mock/time.ts"@ != "ext:edge_assert/mock/spy.ts"@,
        "ext:edge_assert/mock/time.ts"@ != "ext:edge_assert/mock/fetch.ts"@,
{
    reveal_strlit("edge://assert/mod.ts");
    reveal_strlit("edge://assert/assert.ts");
    reveal_strlit("edge://assert/mock/mod.ts");
    reveal_strlit("edge://assert/mock/mockFn.ts");
    reveal_strlit("edge://assert/mock/spy.ts");
    reveal_strlit("edge://assert/mock/fetch.ts");
    reveal_strlit("edge://assert/mock/time.ts");
    reveal_strlit("edge://http/mod.ts");
    reveal_strlit("edge://http/http.ts");
    reveal_strlit("ext:edge_assert/mod.ts");
    reveal_strlit("ext:edge_http/mod.ts");
    reveal_strlit("ext:edge_http/http.ts");
    reveal_strlit("ext:edge_assert/assert.ts");
    reveal_strlit("ext:edge_assert/mock/mod.ts");
    reveal_strlit("ext:edge_assert/mock/mockFn.ts");
    reveal_strlit("ext:edge_assert/mock/spy.ts");
    reveal_strlit("ext:edge_assert/mock/fetch.ts");
    reveal_strlit("ext:edge_assert/mock/time.ts");
    assert("edge://assert/assert.ts"@.len() != "edge://assert/mod.ts"@.len());
    assert("edge://assert/mock/mod.ts"@.len() != "edge://assert/mod.ts"@.len());
    assert("edge://assert/mock/mod.ts"@.len() != "edge://assert/assert.ts"@.len());
    assert("edge://assert/mock/mockFn.ts"@.len() != "edge://assert/mod.ts"@.len());
    assert("edge://assert/mock/mockFn.ts"@.len() != "edge://assert/assert.ts"@.len());
    assert("edge://assert/mock/mockFn.ts"@.len() != "edge://assert/mock/mod.ts"@.len());
    assert("edge://assert/mock/spy.ts"@.len() != "edge://assert/mod.ts"@.len());
    assert("edge://assert/mock/spy.ts"@.len() != "edge://assert/assert.ts"@.len());
    assert("edge://assert/mock/spy.ts"@[19] != "edge://assert/mock/mod.ts"@[19]);
    assert("edge://assert/mock/spy.ts"@.len() != "edge://assert/mock/mockFn.ts"@.len());
    assert("edge://assert/mock/fetch.ts"@.len() != "edge://assert/mod.ts"@.len());
    assert("edge://assert/mock/fetch.ts"@.len() != "edge://assert/assert.ts"@.len());
    assert("edge://assert/mock/fetch.ts"@.len() != "edge://assert/mock/mod.ts"@.len());
    assert("edge://assert/mock/fetch.ts"@.len() != "edge://assert/mock/mockFn.ts"@.len());
    assert("edge://assert/mock/fetch.ts"@.len() != "edge://assert/mock/spy.ts"@.len());
    assert("edge://assert/mock/time.ts"@.len() != "edge://assert/mod.ts"@.len());
    assert("edge://assert/mock/time.ts"@.len() != "edge://assert/assert.ts"@.len());
    assert("edge://assert/mock/time.ts"@.len() != "edge://assert/mock/mod.ts"@.len());
    assert("edge://assert/mock/time.ts"@.len() != "edge://assert/mock/mockFn.ts"@.len());
    assert("edge://assert/mock/time.ts"@.len() != "edge://assert/mock/spy.ts"@.len());
    assert("edge://assert/mock/time.ts"@.len() != "edge://assert/mock/fetch.ts"@.len());
    assert("edge://http/mod.ts"@.len() != "edge://assert/mod.ts"@.len());
    assert("edge://http/mod.ts"@.len() != "edge://assert/assert.ts"@.len());
    assert("edge://http/mod.ts"@.len() != "edge://assert/mock/mod.ts"@.len());
    assert("edge://http/mod.ts"@.len() != "edge://assert/mock/mockFn.ts"@.len());
    assert("edge://http/mod.ts"@.len() != "edge://assert/mock/spy.ts"@.len());
    assert("edge://http/mod.ts"@.len() != "edge://assert/mock/fetch.ts"@.len());
    assert("edge://http/mod.ts"@.len() != "edge://assert/mock/time.ts"@.len());
    assert("edge://http/http.ts"@.len() != "edge://assert/mod.ts"@.len());
    assert("edge://http/http.ts"@.len() != "edge://assert/assert.ts"@.len());
    assert("edge://http/http.ts"@.len() != "edge://assert/mock/mod.ts"@.len());
    assert("edge://http/http.ts"@.len() != "edge://assert/mock/mockFn.ts"@.len());
    assert("edge://http/http.ts"@.len() != "edge://assert/mock/spy.ts"@.len());
    assert("edge://http/http.ts"@.len() != "edge://assert/mock/fetch.ts"@.len());
    assert("edge://http/http.ts"@.len() != "edge://assert/mock/time.ts"@.len());
    assert("edge://http/http.ts"@.len() != "edge://http/mod.ts"@.len());
    assert("ext:edge_assert/mod.ts"@.len() != "edge://assert/mod.ts"@.len());
    assert("ext:edge_assert/mod.ts"@.len() != "edge://assert/assert.ts"@.len());
    assert("ext:edge_assert/mod.ts"@.len() != "edge://assert/mock/mod.ts"@.len());
    assert("ext:edge_assert/mod.ts"@.len() != "edge://assert/mock/mockFn.ts"@.len());
    assert("ext:edge_assert/mod.ts"@.len() != "edge://assert/mock/spy.ts"@.len());
    assert("ext:edge_assert/mod.ts"@.len() != "edge://assert/mock/fetch.ts"@.len());
    assert("ext:edge_assert/mod.ts"@.len() != "edge://assert/mock/time.ts"@.len());
    assert("ext:edge_assert/mod.ts"@.len() != "edge://http/mod.ts"@.len());
    assert("ext:edge_assert/mod.ts"@.len() != "edge://http/http.ts"@.len());
    assert("ext:edge_http/mod.ts"@[1] != "edge://assert/mod.ts"@[1]);
    assert("ext:edge_http/mod.ts"@.len() != "edge://assert/assert.ts"@.len());
    assert("ext:edge_http/mod.ts"@.len() != "edge://assert/mock/mod.ts"@.len());
    assert("ext:edge_http/mod.ts"@.len() != "edge://assert/mock/mockFn.ts"@.len());
    assert("ext:edge_http/mod.ts"@.len() != "edge://assert/mock/spy.ts"@.len());
    assert("ext:edge_http/mod.ts"@.len() != "edge://assert/mock/fetch.ts"@.len());
    assert("ext:edge_http/mod.ts"@.len() != "edge://assert/mock/time.ts"@.len());
    assert("ext:edge_http/mod.ts"@.len() != "edge://http/mod.ts"@.len());
    assert("ext:edge_http/mod.ts"@.len() != "edge://http/http.ts"@.len());
    assert("ext:edge_http/mod.ts"@.len() != "ext:edge_assert/mod.ts"@.len());
    assert("ext:edge_http/http.ts"@.len() != "edge://assert/mod.ts"@.len());
    assert("ext:edge_http/http.ts"@.len() != "edge://assert/assert.ts"@.len());
    assert("ext:edge_http/http.ts"@.len() != "edge://assert/mock/mod.ts"@.len());
    assert("ext:edge_http/http.ts"@.len() != "edge://assert/mock/mockFn.ts"@.len());
    assert("ext:edge_http/http.ts"@.len() != "edge://assert/mock/spy.ts"@.len());
    assert("ext:edge_http/http.ts"@.len() != "edge://assert/mock/fetch.ts"@.len());
    assert("ext:edge_http/http.ts"@.len() != "edge://assert/mock/time.ts"@.len());
    assert("ext:edge_http/http.ts"@.len() != "edge://http/mod.ts"@.len());
    assert("ext:edge_http/http.ts"@.len() != "edge://http/http.ts"@.len());
    assert("ext:edge_http/http.ts"@.len() != "ext:edge_assert/mod.ts"@.len());
    assert("ext:edge_http/http.ts"@.len() != "ext:edge_http/mod.ts"@.len());
    assert("ext:edge_assert/assert.ts"@.len() != "edge://assert/mod.ts"@.len());
    assert("ext:edge_assert/assert.ts"@.len() != "edge://assert/assert.ts"@.len());
    assert("ext:edge_assert/assert.ts"@[1] != "edge://assert/mock/mod.ts"@[1]);
    assert("ext:edge_assert/assert.ts"@.len() != "edge://assert/mock/mockFn.ts"@.len());
    assert("ext:edge_assert/assert.ts"@[1] != "edge://assert/mock/spy.ts"@[1]);
    assert("ext:edge_assert/assert.ts"@.len() != "edge://assert/mock/fetch.ts"@.len());
    assert("ext:edge_assert/assert.ts"@.len() != "edge://assert/mock/time.ts"@.len());
    assert("ext:edge_assert/assert.ts"@.len() != "edge://http/mod.ts"@.len());
    assert("ext:edge_assert/assert.ts"@.len() != "edge://http/http.ts"@.len());
    assert("ext:edge_assert/assert.ts"@.len() != "ext:edge_assert/mod.ts"@.len());
    assert("ext:edge_assert/assert.ts"@.len() != "ext:edge_http/mod.ts"@.len());
    assert("ext:edge_assert/assert.ts"@.len() != "ext:edge_http/http.ts"@.len());
    assert("ext:edge_assert/mock/mod.ts"@.len() != "edge://assert/mod.ts"@.len());
    assert("ext:edge_assert/mock/mod.ts"@.len() != "edge://assert/assert.ts"@.len());
    assert("ext:edge_assert/mock/mod.ts"@.len() != "edge://assert/mock/mod.ts"@.len());
    assert("ext:edge_assert/mock/mod.ts"@.len() != "edge://assert/mock/mockFn.ts"@.len());
    assert("ext:edge_assert/mock/mod.ts"@.len() != "edge://assert/mock/spy.ts"@.len());
    assert("ext:edge_assert/mock/mod.ts"@[1] != "edge://assert/mock/fetch.ts"@[1]);
    assert("ext:edge_assert/mock/mod.ts"@.len() != "edge://assert/mock/time.ts"@.len());
    assert("ext:edge_assert/mock/mod.ts"@.len() != "edge://http/mod.ts"@.len());
    assert("ext:edge_assert/mock/mod.ts"@.len() != "edge://http/http.ts"@.len());
    assert("ext:edge_assert/mock/mod.ts"@.len() != "ext:edge_assert/mod.ts"@.len());
    assert("ext:edge_assert/mock/mod.ts"@.len() != "ext:edge_http/mod.ts"@.len());
    assert("ext:edge_assert/mock/mod.ts"@.len() != "ext:edge_http/http.ts"@.len());
    assert("ext:edge_assert/mock/mod.ts"@.len() != "ext:edge_assert/assert.ts"@.len());
    assert("ext:edge_assert/mock/mockFn.ts"@.len() != "edge://assert/mod.ts"@.len());
    assert("ext:edge_assert/mock/mockFn.ts"@.len() != "edge://assert/assert.ts"@.len());
    assert("ext:edge_assert/mock/mockFn.ts"@.len() != "edge://assert/mock/mod.ts"@.len());
    assert("ext:edge_assert/mock/mockFn.ts"@.len() != "edge://assert/mock/mockFn.ts"@.len());
    assert("ext:edge_assert/mock/mockFn.ts"@.len() != "edge://assert/mock/spy.ts"@.len());
    assert("ext:edge_assert/mock/mockFn.ts"@.len() != "edge://assert/mock/fetch.ts"@.len());
    assert("ext:edge_assert/mock/mockFn.ts"@.len() != "edge://assert/mock/time.ts"@.len());
    assert("ext:edge_assert/mock/mockFn.ts"@.len() != "edge://http/mod.ts"@.len());
    assert("ext:edge_assert/mock/mockFn.ts"@.len() != "edge://http/http.ts"@.len());
    assert("ext:edge_assert/mock/mockFn.ts"@.len() != "ext:edge_assert/mod.ts"@.len());
    assert("ext:edge_assert/mock/mockFn.ts"@.len() != "ext:edge_http/mod.ts"@.len());
    assert("ext:edge_assert/mock/mockFn.ts"@.len() != "ext:edge_http/http.ts"@.len());
    assert("ext:edge_assert/mock/mockFn.ts"@.len() != "ext:edge_assert/assert.ts"@.len());
    assert("ext:edge_assert/mock/mockFn.ts"@.len() != "ext:edge_assert/mock/mod.ts"@.len());
    assert("ext:edge_assert/mock/spy.ts"@.len() != "edge://assert/mod.ts"@.len());
    assert("ext:edge_assert/mock/spy.ts"@.len() != "edge://assert/assert.ts"@.len());
    assert("ext:edge_assert/mock/spy.ts"@.len() != "edge://assert/mock/mod.ts"@.len());
    assert("ext:edge_assert/mock/spy.ts"@.len() != "edge://assert/mock/mockFn.ts"@.len());
    assert("ext:edge_assert/mock/spy.ts"@.len() != "edge://assert/mock/spy.ts"@.len());
    assert("ext:edge_assert/mock/spy.ts"@[1] != "edge://assert/mock/fetch.ts"@[1]);
    assert("ext:edge_assert/mock/spy.ts"@.len() != "edge://assert/mock/time.ts"@.len());
    assert("ext:edge_assert/mock/spy.ts"@.len() != "edge://http/mod.ts"@.len());
    assert("ext:edge_assert/mock/spy.ts"@.len() != "edge://http/http.ts"@.len());
    assert("ext:edge_assert/mock/spy.ts"@.len() != "ext:edge_assert/mod.ts"@.len());
    assert("ext:edge_assert/mock/spy.ts"@.len() != "ext:edge_http/mod.ts"@.len());
    assert("ext:edge_assert/mock/spy.ts"@.len() != "ext:edge_http/http.ts"@.len());
    assert("ext:edge_assert/mock/spy.ts"@.len() != "ext:edge_assert/assert.ts"@.len());
    assert("ext:edge_assert/mock/spy.ts"@[21] != "ext:edge_assert/mock/mod.ts"@[21]);
    assert("ext:edge_assert/mock/spy.ts"@.len() != "ext:edge_assert/mock/mockFn.ts"@.len());
    assert("ext:edge_assert/mock/fetch.ts"@.len() != "edge://assert/mod.ts"@.len());
    assert("ext:edge_assert/mock/fetch.ts"@.len() != "edge://assert/assert.ts"@.len());
    assert("ext:edge_assert/mock/fetch.ts"@.len() != "edge://assert/mock/mod.ts"@.len());
    assert("ext:edge_assert/mock/fetch.ts"@.len() != "edge://assert/mock/mockFn.ts"@.len());
    assert("ext:edge_assert/mock/fetch.ts"@.len() != "edge://assert/mock/spy.ts"@.len());
    assert("ext:edge_assert/mock/fetch.ts"@.len() != "edge://assert/mock/fetch.ts"@.len());
    assert("ext:edge_assert/mock/fetch.ts"@.len() != "edge://assert/mock/time.ts"@.len());
    assert("ext:edge_assert/mock/fetch.ts"@.len() != "edge://http/mod.ts"@.len());
    assert("ext:edge_assert/mock/fetch.ts"@.len() != "edge://http/http.ts"@.len());
    assert("ext:edge_assert/mock/fetch.ts"@.len() != "ext:edge_assert/mod.ts"@.len());
    assert("ext:edge_assert/mock/fetch.ts"@.len() != "ext:edge_http/mod.ts"@.len());
    assert("ext:edge_assert/mock/fetch.ts"@.len() != "ext:edge_http/http.ts"@.len());
    assert("ext:edge_assert/mock/fetch.ts"@.len() != "ext:edge_assert/assert.ts"@.len());
    assert("ext:edge_assert/mock/fetch.ts"@.len() != "ext:edge_assert/mock/mod.ts"@.len());
    assert("ext:edge_assert/mock/fetch.ts"@.len() != "ext:edge_assert/mock/mockFn.ts"@.len());
    assert("ext:edge_assert/mock/fetch.ts"@.len() != "ext:edge_assert/mock/spy.ts"@.len());
    assert("ext:edge_assert/mock/time.ts"@.len() != "edge://assert/mod.ts"@.len());
    assert("ext:edge_assert/mock/time.ts"@.len() != "edge://assert/assert.ts"@.len());
    assert("ext:edge_assert/mock/time.ts"@.len() != "edge://assert/mock/mod.ts"@.len());
    assert("ext:edge_assert/mock/time.ts"@[1] != "edge://assert/mock/mockFn.ts"@[1]);
    assert("ext:edge_assert/mock/time.ts"@.len() != "edge://assert/mock/spy.ts"@.len());
    assert("ext:edge_assert/mock/time.ts"@.len() != "edge://assert/mock/fetch.ts"@.len());
    assert("ext:edge_assert/mock/time.ts"@.len() != "edge://assert/mock/time.ts"@.len());
    assert("ext:edge_assert/mock/time.ts"@.len() != "edge://http/mod.ts"@.len());
    assert("ext:edge_assert/mock/time.ts"@.len() != "edge://http/http.ts"@.len());
    assert("ext:edge_assert/mock/time.ts"@.len() != "ext:edge_assert/mod.ts"@.len());
    assert("ext:edge_assert/mock/time.ts"@.len() != "ext:edge_http/mod.ts"@.len());
    assert("ext:edge_assert/mock/time.ts"@.len() != "ext:edge_http/http.ts"@.len());
    assert("ext:edge_assert/mock/time.ts"@.len() != "ext:edge_assert/assert.ts"@.len());
    assert("ext:edge_assert/mock/time.ts"@.len() != "ext:edge_assert/mock/mod.ts"@.len());
    assert("ext:edge_assert/mock/time.ts"@.len() != "ext:edge_assert/mock/mockFn.ts"@.len());
    assert("ext:edge_assert/mock/time.ts"@.len() != "ext:edge_assert/mock/spy.ts"@.len());
    assert("ext:edge_assert/mock/time.ts"@.len() != "ext:edge_assert/mock/fetch.ts"@.len());
}

/// Different texts have different UTF-8 encodings.
proof fn lemma_encode_injective(x: Seq<char>, y: Seq<char>)
    ensures
        (encode_utf8(x) == encode_utf8(y)) == (x == y),
{
    vstd::utf8::encode_utf8_decode_utf8(x);
    vstd::utf8::encode_utf8_decode_utf8(y);
}

/// Each module the loader serves unchanged comes from that module's own
/// source and no other: two sets of sources give the same bytes for its
/// specifier exactly when they agree on that source.
#[verifier::spinoff_prover]
pub proof fn lemma_served_module_is_its_own_source(a: EmbeddedSources, b: EmbeddedSources)
    ensures
        (embedded_module("edge://assert/mod.ts"@, a) == embedded_module("edge://assert/mod.ts"@, b)) == (a.assert_user_mod@ == b.assert_user_mod@),
        (embedded_module("edge://assert/assert.ts"@, a) == embedded_module("edge://assert/assert.ts"@, b)) == (a.assert_assert@ == b.assert_assert@),
        (embedded_module("edge://assert/mock/mod.ts"@, a) == embedded_module("edge://assert/mock/mod.ts"@, b)) == (a.assert_mock_mod@ == b.assert_mock_mod@),
        (embedded_module("edge://assert/mock/mockFn.ts"@, a) == embedded_module("edge://assert/mock/mockFn.ts"@, b)) == (a.assert_mock_fn@ == b.assert_mock_fn@),
        (embedded_module("edge://assert/mock/spy.ts"@, a) == embedded_module("edge://assert/mock/spy.ts"@, b)) == (a.assert_mock_spy@ == b.assert_mock_spy@),
        (embedded_module("edge://assert/mock/fetch.ts"@, a) == embedded_module("edge://assert/mock/fetch.ts"@, b)) == (a.assert_mock_fetch@ == b.assert_mock_fetch@),
        (embedded_module("edge://assert/mock/time.ts"@, a) == embedded_module("edge://assert/mock/time.ts"@, b)) == (a.assert_mock_time@ == b.assert_mock_time@),
        (embedded_module("edge://http/mod.ts"@, a) == embedded_module("edge://http/mod.ts"@, b)) == (a.http_user_mod@ == b.http_user_mod@),
        (embedded_module("edge://http/http.ts"@, a) == embedded_module("edge://http/http.ts"@, b)) == (a.http_http@ == b.http_http@),
        (embedded_module("ext:edge_assert/mod.ts"@, a) == embedded_module("ext:edge_assert/mod.ts"@, b)) == (a.assert_mod@ == b.assert_mod@),
        (embedded_module("ext:edge_http/mod.ts"@, a) == embedded_module("ext:edge_http/mod.ts"@, b)) == (a.http_mod@ == b.http_mod@),
        (embedded_module("ext:edge_http/http.ts"@, a) == embedded_module("ext:edge_http/http.ts"@, b)) == (a.http_http@ == b.http_http@),
        (embedded_module("ext:edge_assert/mock/mockFn.ts"@, a) == embedded_module("ext:edge_assert/mock/mockFn.ts"@, b)) == (a.assert_mock_fn@ == b.assert_mock_fn@),
        (embedded_module("ext:edge_assert/mock/time.ts"@, a) == embedded_module("ext:edge_assert/mock/time.ts"@, b)) == (a.assert_mock_time@ == b.assert_mock_time@),
{
    lemma_specifiers_distinct();
    assert(embedded_module("edge://assert/mod.ts"@, a) == Some(encode_utf8(a.assert_user_mod@)));
    assert(embedded_module("edge://assert/mod.ts"@, b) == Some(encode_utf8(b.assert_user_mod@)));
    lemma_encode_injective(a.assert_user_mod@, b.assert_user_mod@);
    assert(embedded_module("edge://assert/assert.ts"@, a) == Some(encode_utf8(a.assert_assert@)));
    assert(embedded_module("edge://assert/assert.ts"@, b) == Some(encode_utf8(b.assert_assert@)));
    lemma_encode_injective(a.assert_assert@, b.assert_assert@);
    assert(embedded_module("edge://assert/mock/mod.ts"@, a) == Some(encode_utf8(a.assert_mock_mod@)));
    assert(embedded_module("edge://assert/mock/mod.ts"@, b) == Some(encode_utf8(b.assert_mock_mod@)));
    lemma_encode_injective(a.assert_mock_mod@, b.assert_mock_mod@);
    assert(embedded_module("edge://assert/mock/mockFn.ts"@, a) == Some(encode_utf8(a.assert_mock_fn@)));
    assert(embedded_module("edge://assert/mock/mockFn.ts"@, b) == Some(encode_utf8(b.assert_mock_fn@)));
    lemma_encode_injective(a.assert_mock_fn@, b.assert_mock_fn@);
    assert(embedded_module("edge://assert/mock/spy.ts"@, a) == Some(encode_utf8(a.assert_mock_spy@)));
    assert(embedded_module("edge://assert/mock/spy.ts"@, b) == Some(encode_utf8(b.assert_mock_spy@)));
    lemma_encode_injective(a.assert_mock_spy@, b.assert_mock_spy@);
    assert(embedded_module("edge://assert/mock/fetch.ts"@, a) == Some(encode_utf8(a.assert_mock_fetch@)));
    assert(embedded_module("edge://assert/mock/fetch.ts"@, b) == Some(encode_utf8(b.assert_mock_fetch@)));
    lemma_encode_injective(a.assert_mock_fetch@, b.assert_mock_fetch@);
    assert(embedded_module("edge://assert/mock/time.ts"@, a) == Some(encode_utf8(a.assert_mock_time@)));
    assert(embedded_module("edge://assert/mock/time.ts"@, b) == Some(encode_utf8(b.assert_mock_time@)));
    lemma_encode_injective(a.assert_mock_time@, b.assert_mock_time@);
    assert(embedded_module("edge://http/mod.ts"@, a) == Some(encode_utf8(a.http_user_mod@)));
    assert(embedded_module("edge://http/mod.ts"@, b) == Some(encode_utf8(b.http_user_mod@)));
    lemma_encode_injective(a.http_user_mod@, b.http_user_mod@);
    assert(embedded_module("edge://http/http.ts"@, a) == Some(encode_utf8(a.http_http@)));
    assert(embedded_module("edge://http/http.ts"@, b) == Some(encode_utf8(b.http_http@)));
    lemma_encode_injective(a.http_http@, b.http_http@);
    assert(embedded_module("ext:edge_assert/mod.ts"@, a) == Some(encode_utf8(a.assert_mod@)));
    assert(embedded_module("ext:edge_assert/mod.ts"@, b) == Some(encode_utf8(b.assert_mod@)));
    lemma_encode_injective(a.assert_mod@, b.assert_mod@);
    assert(embedded_module("ext:edge_http/mod.ts"@, a) == Some(encode_utf8(a.http_mod@)));
    assert(embedded_module("ext:edge_http/mod.ts"@, b) == Some(encode_utf8(b.http_mod@)));
    lemma_encode_injective(a.http_mod@, b.http_mod@);
    assert(embedded_module("ext:edge_http/http.ts"@, a) == Some(encode_utf8(a.http_http@)));
    assert(embedded_module("ext:edge_http/http.ts"@, b) == Some(encode_utf8(b.http_http@)));
    lemma_encode_injective(a.http_http@, b.http_http@);
    assert(embedded_module("ext:edge_assert/mock/mockFn.ts"@, a) == Some(encode_utf8(a.assert_mock_fn@)));
    assert(embedded_module("ext:edge_assert/mock/mockFn.ts"@, b) == Some(encode_utf8(b.assert_mock_fn@)));
    lemma_encode_injective(a.assert_mock_fn@, b.assert_mock_fn@);
    assert(embedded_module("ext:edge_assert/mock/time.ts"@, a) == Some(encode_utf8(a.assert_mock_time@)));
    assert(embedded_module("ext:edge_assert/mock/time.ts"@, b) == Some(encode_utf8(b.assert_mock_time@)));
    lemma_encode_injective(a.assert_mock_time@, b.assert_mock_time@);
}

/// Each module served with its relative imports repointed depends on its own
/// source alone; every known specifier is served; and a module reached both
/// as `edge://...` and as `ext:...` gives the same bytes under both names.
#[verifier::spinoff_prover]
pub proof fn lemma_served_modules_agree(a: EmbeddedSources, b: EmbeddedSources)
    ensures
        a.assert_assert@ == b.assert_assert@ ==> embedded_module("ext:edge_assert/assert.ts"@, a) == embedded_module("ext:edge_assert/assert.ts"@, b),
        a.assert_mock_mod@ == b.assert_mock_mod@ ==> embedded_module("ext:edge_assert/mock/mod.ts"@, a) == embedded_module("ext:edge_assert/mock/mod.ts"@, b),
        a.assert_mock_spy@ == b.assert_mock_spy@ ==> embedded_module("ext:edge_assert/mock/spy.ts"@, a) == embedded_module("ext:edge_assert/mock/spy.ts"@, b),
        a.assert_mock_fetch@ == b.assert_mock_fetch@ ==> embedded_module("ext:edge_assert/mock/fetch.ts"@, a) == embedded_module("ext:edge_assert/mock/fetch.ts"@, b),
        embedded_module("edge://assert/mod.ts"@, a) is Some,
        embedded_module("edge://assert/assert.ts"@, a) is Some,
        embedded_module("edge://assert/mock/mod.ts"@, a) is Some,
        embedded_module("edge://assert/mock/mockFn.ts"@, a) is Some,
        embedded_module("edge://assert/mock/spy.ts"@, a) is Some,
        embedded_module("edge://assert/mock/fetch.ts"@, a) is Some,
        embedded_module("edge://assert/mock/time.ts"@, a) is Some,
        embedded_module("edge://http/mod.ts"@, a) is Some,
        embedded_module("edge://http/http.ts"@, a) is Some,
        embedded_module("ext:edge_assert/mod.ts"@, a) is Some,
        embedded_module("ext:edge_http/mod.ts"@, a) is Some,
        embedded_module("ext:edge_http/http.ts"@, a) is Some,
        embedded_module("ext:edge_assert/mock/mockFn.ts"@, a) is Some,
        embedded_module("ext:edge_assert/mock/time.ts"@, a) is Some,
        embedded_module("ext:edge_assert/assert.ts"@, a) is Some,
        embedded_module("ext:edge_assert/mock/mod.ts"@, a) is Some,
        embedded_module("ext:edge_assert/mock/spy.ts"@, a) is Some,
        embedded_module("ext:edge_assert/mock/fetch.ts"@, a) is Some,
        embedded_module("edge://http/http.ts"@, a) == embedded_module("ext:edge_http/http.ts"@, a),
        embedded_module("edge://assert/mock/mockFn.ts"@, a) == embedded_module("ext:edge_assert/mock/mockFn.ts"@, a),
        embedded_module("edge://assert/mock/time.ts"@, a) == embedded_module("ext:edge_assert/mock/time.ts"@, a),
{
    lemma_specifiers_distinct();
}

/// No other specifier is served: the loader answers `None` for anything
/// but the names of the embedded modules.
pub proof fn lemma_unknown_specifier_not_served(specifier: Seq<char>, src: EmbeddedSources)
    requires
        specifier != "edge://assert/mod.ts"@,
        specifier != "edge://assert/assert.ts"@,
        specifier != "edge://assert/mock/mod.ts"@,
        specifier != "edge://assert/mock/mockFn.ts"@,
        specifier != "edge://assert/mock/spy.ts"@,
        specifier != "edge://assert/mock/fetch.ts"@,
        specifier != "edge://assert/mock/time.ts"@,
        specifier != "edge://http/mod.ts"@,
        specifier != "edge://http/http.ts"@,
        specifier != "ext:edge_assert/mod.ts"@,
        specifier != "ext:edge_http/mod.ts"@,
        specifier != "ext:edge_http/http.ts"@,
        specifier != "ext:edge_assert/assert.ts"@,
        specifier != "ext:edge_assert/mock/mod.ts"@,
        specifier != "ext:edge_assert/mock/mockFn.ts"@,
        specifier != "ext:edge_assert/mock/spy.ts"@,
        specifier != "ext:edge_assert/mock/fetch.ts"@,
        specifier != "ext:edge_assert/mock/time.ts"@,
    ensures
        embedded_module(specifier, src) is None,
{
}

/// The source the embedded module loader serves for `specifier`, if any.
pub fn load_module_bytes(specifier: &str, src: &EmbeddedSources) -> (r: Option<Vec<u8>>)
    ensures
        match (r, embedded_module(specifier@, *src)) {
            (Some(b), Some(c)) => b@ == c,
            (None, None) => true,
            _ => false,
        },
{
    if same(specifier, "edge://assert/mod.ts") {
        Some(bytes_of(src.assert_user_mod.as_str()))
    } else if same(specifier, "edge://assert/assert.ts") {
        Some(bytes_of(src.assert_assert.as_str()))
    } else if same(specifier, "edge://assert/mock/mod.ts") {
        Some(bytes_of(src.assert_mock_mod.as_str()))
    } else if same(specifier, "edge://assert/mock/mockFn.ts") {
        Some(bytes_of(src.assert_mock_fn.as_str()))
    } else if same(specifier, "edge://assert/mock/spy.ts") {
        Some(bytes_of(src.assert_mock_spy.as_str()))
    } else if same(specifier, "edge://assert/mock/fetch.ts") {
        Some(bytes_of(src.assert_mock_fetch.as_str()))
    } else if same(specifier, "edge://assert/mock/time.ts") {
        Some(bytes_of(src.assert_mock_time.as_str()))
    } else if same(specifier, "edge://http/mod.ts") {
        Some(bytes_of(src.http_user_mod.as_str()))
    } else if same(specifier, "edge://http/http.ts") {
        Some(bytes_of(src.http_http.as_str()))
    } else if same(specifier, "ext:edge_assert/mod.ts") {
        Some(bytes_of(src.assert_mod.as_str()))
    } else if same(specifier, "ext:edge_http/mod.ts") {
        Some(bytes_of(src.http_mod.as_str()))
    } else if same(specifier, "ext:edge_http/http.ts") {
        Some(bytes_of(src.http_http.as_str()))
    } else if same(specifier, "ext:edge_assert/assert.ts") {
        proof {
            reveal_strlit("\"./mock/mod.ts\"");
        }
        let text = bytes_of(src.assert_assert.as_str());
        Some(replace_in(&text, "\"./mock/mod.ts\"", "\"edge://assert/mock/mod.ts\""))
    } else if same(specifier, "ext:edge_assert/mock/mod.ts") {
        proof {
            reveal_strlit("\"./mockFn.ts\"");
            reveal_strlit("\"./spy.ts\"");
            reveal_strlit("\"./fetch.ts\"");
            reveal_strlit("\"./time.ts\"");
        }
        let text = bytes_of(src.assert_mock_mod.as_str());
        let a = replace_in(&text, "\"./mockFn.ts\"", "\"edge://assert/mock/mockFn.ts\"");
        let b = replace_in(&a, "\"./spy.ts\"", "\"edge://assert/mock/spy.ts\"");
        let c = replace_in(&b, "\"./fetch.ts\"", "\"edge://assert/mock/fetch.ts\"");
        Some(replace_in(&c, "\"./time.ts\"", "\"edge://assert/mock/time.ts\""))
    } else if same(specifier, "ext:edge_assert/mock/mockFn.ts") {
        Some(bytes_of(src.assert_mock_fn.as_str()))
    } else if same(specifier, "ext:edge_assert/mock/spy.ts") {
        proof {
            reveal_strlit("\"./mockFn.ts\"");
        }
        let text = bytes_of(src.assert_mock_spy.as_str());
        Some(replace_in(&text, "\"./mockFn.ts\"", "\"edge://assert/mock/mockFn.ts\""))
    } else if same(specifier, "ext:edge_assert/mock/fetch.ts") {
        proof {
            reveal_strlit("\"./mockFn.ts\"");
        }
        let text = bytes_of(src.assert_mock_fetch.as_str());
        Some(replace_in(&text, "\"./mockFn.ts\"", "\"edge://assert/mock/mockFn.ts\""))
    } else if same(specifier, "ext:edge_assert/mock/time.ts") {
        Some(bytes_of(src.assert_mock_time.as_str()))
    } else {
        None
    }
}

} // verus!
