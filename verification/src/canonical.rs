//! The canonical signing string of a request and the digest of its body.
use crate::codec::{base64_bytes, base64_encode, base64_text, sha256, sha256_of};
use crate::error::Error;
use crate::text::{
    chars_of, find_char, first_index_from, free_of, lemma_first_index_from, lower, same_text,
    string_of, to_lower,
};
use vstd::prelude::*;

verus! {

/// What of one request goes into its signature: the request line, the three
/// headers that are signed, and the body that the digest header speaks for.
#[derive(Clone, Debug, PartialEq, Eq)]
pub struct SigningContext {
    pub method: String,
    pub path: String,
    pub host: String,
    pub date: String,
    pub digest: String,
    pub body: Vec<u8>,
}

/// A signing context as plain sequences.
pub struct SigningContextView {
    pub method: Seq<char>,
    pub path: Seq<char>,
    pub host: Seq<char>,
    pub date: Seq<char>,
    pub digest: Seq<char>,
    pub body: Seq<u8>,
}

impl View for SigningContext {
    type V = SigningContextView;

    open spec fn view(&self) -> SigningContextView {
        SigningContextView {
            method: self.method@,
            path: self.path@,
            host: self.host@,
            date: self.date@,
            digest: self.digest@,
            body: self.body@,
        }
    }
}

/// The digest header value of a body: `SHA-256=` and the base64 text of the
/// body's SHA-256 hash.
pub open spec fn digest_text(body: Seq<u8>) -> Seq<char> {
    digest_value(base64_text(sha256_of(body)))
}

/// The digest header value that carries an encoded hash.
pub open spec fn digest_value(encoded_hash: Seq<char>) -> Seq<char> {
    "SHA-256="@ + encoded_hash
}

/// The digest header value for an already encoded hash.
pub fn digest_header_value(encoded_hash: &str) -> (r: String)
    ensures
        r@ == digest_value(encoded_hash@),
{
    let mut out = String::from_str("SHA-256=");
    out.append(encoded_hash);
    out
}

/// The hash that a digest header value carries, where it names SHA-256 and
/// holds base64 text.
pub open spec fn digest_hash(value: Seq<char>) -> Option<Seq<u8>> {
    if value.len() >= 8 && value.subrange(0, 8) == "SHA-256="@ {
        base64_bytes(value.subrange(8, value.len() as int))
    } else {
        None
    }
}

/// The digest header value of `body`. It depends on the body alone, and it
/// carries the body's SHA-256 hash: two bodies with one digest have one hash.
pub fn digest(body: &[u8]) -> (r: String)
    ensures
        r@ == digest_text(body@),
        digest_hash(r@) == Some(sha256_of(body@)),
{
    let hash = sha256(body);
    let encoded = base64_encode(hash.as_slice());
    let value = digest_header_value(encoded.as_str());
    proof {
        reveal_strlit("SHA-256=");
        assert(value@.subrange(0, 8) =~= "SHA-256="@);
        assert(value@.subrange(8, value@.len() as int) =~= encoded@);
    }
    value
}

/// The path that is signed for a request target. With `keep_query` false the
/// query, from the first `?` on, is left out; a target without a leading slash
/// gets one. Signer and verifier must pass the same `keep_query`.
pub open spec fn path_text(target: Seq<char>, keep_query: bool) -> Seq<char> {
    let end = if keep_query {
        target.len() as int
    } else {
        first_index_from(target, '?', 0)
    };
    let kept = target.subrange(0, end);
    if kept.len() > 0 && kept[0] == '/' {
        kept
    } else {
        seq!['/'] + kept
    }
}

/// The path that is signed for a request target: the target without its
/// query unless `keep_query` is set, with a leading slash.
pub fn request_path(target: &str, keep_query: bool) -> (r: String)
    ensures
        r@ == path_text(target@, keep_query),
        r@.len() > 0 && r@[0] == '/',
        !keep_query ==> free_of(r@, '?'),
{
    let v = chars_of(target);
    let end: usize = if keep_query {
        v.len()
    } else {
        find_char(v.as_slice(), '?', 0)
    };
    proof {
        lemma_first_index_from(v@, '?', 0);
    }
    let kept = string_of(v.as_slice(), 0, end);
    if end > 0 && v[0] == '/' {
        kept
    } else {
        let mut out = String::new();
        crate::text::push_char(&mut out, '/');
        out.append(kept.as_str());
        proof {
            assert(out@ =~= seq!['/'] + kept@);
        }
        out
    }
}

/// The value of the request-target line: the method in lower case, a space,
/// the path.
pub open spec fn request_target(method: Seq<char>, path: Seq<char>) -> Seq<char> {
    lower(method) + " "@ + path
}

/// One line of the canonical string.
pub open spec fn component_line(name: Seq<char>, value: Seq<char>) -> Seq<char> {
    name + ": "@ + value
}

/// The canonical string over the fixed component list
/// `(request-target) host date digest`: four lines, joined by line feeds,
/// with none at the end.
pub open spec fn canonical_text(
    method: Seq<char>,
    path: Seq<char>,
    host: Seq<char>,
    date: Seq<char>,
    digest: Seq<char>,
) -> Seq<char> {
    component_line("(request-target)"@, request_target(method, path)) + "\n"@ + component_line(
        "host"@,
        host,
    ) + "\n"@ + component_line("date"@, date) + "\n"@ + component_line("digest"@, digest)
}

/// The canonical string that is signed for a request, over the fixed
/// component list.
pub fn canonical_string(method: &str, path: &str, host: &str, date: &str, digest: &str) -> (r:
    String)
    ensures
        r@ == canonical_text(method@, path@, host@, date@, digest@),
{
    let mut out = String::from_str("(request-target)");
    out.append(": ");
    let low = to_lower(method);
    out.append(low.as_str());
    out.append(" ");
    out.append(path);
    out.append("\n");
    out.append("host");
    out.append(": ");
    out.append(host);
    out.append("\n");
    out.append("date");
    out.append(": ");
    out.append(date);
    out.append("\n");
    out.append("digest");
    out.append(": ");
    out.append(digest);
    proof {
        assert(out@ =~= canonical_text(method@, path@, host@, date@, digest@));
    }
    out
}

/// The names of the request components that a signature can cover.
pub open spec fn is_component(name: Seq<char>) -> bool {
    name == "(request-target)"@ || name == "host"@ || name == "date"@ || name == "digest"@
}

/// The value that a request gives to a component.
pub open spec fn component_value(ctx: SigningContextView, name: Seq<char>) -> Seq<char> {
    if name == "(request-target)"@ {
        request_target(ctx.method, ctx.path)
    } else if name == "host"@ {
        ctx.host
    } else if name == "date"@ {
        ctx.date
    } else {
        ctx.digest
    }
}

/// The canonical line of a component that a header list names. Names are
/// matched and written in lower case.
pub open spec fn line_of(ctx: SigningContextView, name: Seq<char>) -> Seq<char> {
    component_line(lower(name), component_value(ctx, lower(name)))
}

/// The lines of the named components, in the order of the list, joined by
/// line feeds, with none at the end.
pub open spec fn joined_lines(ctx: SigningContextView, names: Seq<Seq<char>>) -> Seq<char>
    decreases names.len(),
{
    if names.len() == 0 {
        Seq::empty()
    } else if names.len() == 1 {
        line_of(ctx, names[0])
    } else {
        joined_lines(ctx, names.drop_last()) + "\n"@ + line_of(ctx, names.last())
    }
}

/// Whether every name of a list is, in lower case, a component.
pub open spec fn all_components(names: Seq<Seq<char>>) -> bool {
    forall|i: int| 0 <= i < names.len() ==> is_component(lower(#[trigger] names[i]))
}

/// The canonical string of a request over a list of component names, where
/// the request carries them all.
pub open spec fn canonical_text_for(ctx: SigningContextView, names: Seq<Seq<char>>) -> Option<
    Seq<char>,
> {
    if all_components(names) {
        Some(joined_lines(ctx, names))
    } else {
        None
    }
}

/// The texts of a list of strings.
pub open spec fn texts(names: Seq<String>) -> Seq<Seq<char>> {
    Seq::new(names.len(), |i: int| names[i]@)
}

/// The component list that this library signs with.
pub open spec fn default_names() -> Seq<Seq<char>> {
    seq!["(request-target)"@, "host"@, "date"@, "digest"@]
}

/// The component list that this library signs with:
/// `(request-target) host date digest`.
pub fn default_headers() -> (r: Vec<String>)
    ensures
        texts(r@) == default_names(),
{
    let mut out: Vec<String> = Vec::new();
    out.push(String::from_str("(request-target)"));
    out.push(String::from_str("host"));
    out.push(String::from_str("date"));
    out.push(String::from_str("digest"));
    proof {
        assert(texts(out@) =~= default_names());
    }
    out
}

/// The canonical string of `ctx` over the components that `names` lists, in
/// that order. A name that is none of `(request-target)`, `host`, `date`,
/// `digest` is refused: the request carries no such component.
pub fn canonical_string_for(ctx: &SigningContext, names: &Vec<String>) -> (r: Result<
    String,
    Error,
>)
    ensures
        match canonical_text_for(ctx@, texts(names@)) {
            Some(t) => r matches Ok(s) && s@ == t,
            None => r == Err::<String, Error>(Error::MalformedSignatureHeader),
        },
{
    let mut out = String::new();
    let mut i: usize = 0;
    while i < names.len()
        invariant
            i <= names@.len(),
            all_components(texts(names@).subrange(0, i as int)),
            out@ == joined_lines(ctx@, texts(names@).subrange(0, i as int)),
        decreases names@.len() - i,
    {
        let low = to_lower(names[i].as_str());
        let ghost before = texts(names@).subrange(0, i as int);
        let ghost now = texts(names@).subrange(0, i + 1);
        proof {
            assert(now.drop_last() =~= before);
            assert(now.last() == names@[i as int]@);
            assert(low@ == lower(texts(names@)[i as int]));
        }
        if i > 0 {
            out.append("\n");
        }
        out.append(low.as_str());
        out.append(": ");
        if same_text(low.as_str(), "(request-target)") {
            let method = to_lower(ctx.method.as_str());
            out.append(method.as_str());
            out.append(" ");
            out.append(ctx.path.as_str());
        } else if same_text(low.as_str(), "host") {
            out.append(ctx.host.as_str());
        } else if same_text(low.as_str(), "date") {
            out.append(ctx.date.as_str());
        } else if same_text(low.as_str(), "digest") {
            out.append(ctx.digest.as_str());
        } else {
            proof {
                assert(!is_component(lower(texts(names@)[i as int])));
            }
            return Err(Error::MalformedSignatureHeader);
        }
        proof {
            assert(is_component(lower(now[i as int])));
            assert forall|j: int| 0 <= j < now.len() implies is_component(
                lower(#[trigger] now[j]),
            ) by {
                if j < i {
                    assert(now[j] == before[j]);
                }
            }
            if i == 0 {
                assert(out@ =~= line_of(ctx@, now[0]));
            } else {
                assert(out@ =~= joined_lines(ctx@, before) + "\n"@ + line_of(ctx@, now.last()));
            }
        }
        i += 1;
    }
    proof {
        assert(texts(names@).subrange(0, names@.len() as int) =~= texts(names@));
    }
    Ok(out)
}

/// Over the component list that this library signs with, the canonical string
/// of a request is the fixed four-line form.
pub proof fn lemma_default_canonical(ctx: SigningContextView)
    ensures
        canonical_text_for(ctx, default_names()) == Some(
            canonical_text(ctx.method, ctx.path, ctx.host, ctx.date, ctx.digest),
        ),
{
    reveal_strlit("(request-target)");
    reveal_strlit("host");
    reveal_strlit("date");
    reveal_strlit("digest");
    let n = default_names();
    assert(lower("(request-target)"@) =~= "(request-target)"@);
    assert(lower("host"@) =~= "host"@);
    assert(lower("date"@) =~= "date"@);
    assert(lower("digest"@) =~= "digest"@);
    assert(all_components(n));
    let n3 = n.drop_last();
    let n2 = n3.drop_last();
    let n1 = n2.drop_last();
    assert(n1.len() == 1 && n1[0] == "(request-target)"@);
    assert(joined_lines(ctx, n1) == line_of(ctx, "(request-target)"@));
    assert(joined_lines(ctx, n2) == joined_lines(ctx, n1) + "\n"@ + line_of(ctx, "host"@));
    assert(joined_lines(ctx, n3) == joined_lines(ctx, n2) + "\n"@ + line_of(ctx, "date"@));
    assert(joined_lines(ctx, n) == joined_lines(ctx, n3) + "\n"@ + line_of(ctx, "digest"@));
    assert("host"@[0] == 'h' && "date"@[0] == 'd' && "digest"@[0] == 'd');
    assert("(request-target)"@[0] == '(');
}

/// Whether no signed value of a request holds a line feed.
pub open spec fn single_lined(ctx: SigningContextView) -> bool {
    free_of(ctx.method, '\n') && free_of(ctx.path, '\n') && free_of(ctx.host, '\n') && free_of(
        ctx.date,
        '\n',
    ) && free_of(ctx.digest, '\n')
}

/// The line of a component starts with the first two characters of its name.
proof fn lemma_line_start(ctx: SigningContextView, name: Seq<char>)
    requires
        is_component(lower(name)),
    ensures
        line_of(ctx, name).len() >= 2,
        line_of(ctx, name)[0] == lower(name)[0],
        line_of(ctx, name)[1] == lower(name)[1],
{
    reveal_strlit("(request-target)");
    reveal_strlit("host");
    reveal_strlit("date");
    reveal_strlit("digest");
    let line = line_of(ctx, name);
    assert(line[0] == lower(name)[0]);
    assert(line[1] == lower(name)[1]);
}

/// Where the request's values hold no line feed, the line of a component
/// holds none.
proof fn lemma_line_single(ctx: SigningContextView, name: Seq<char>)
    requires
        single_lined(ctx),
        is_component(lower(name)),
    ensures
        free_of(line_of(ctx, name), '\n'),
{
    reveal_strlit("(request-target)");
    reveal_strlit("host");
    reveal_strlit("date");
    reveal_strlit("digest");
    reveal_strlit(": ");
    reveal_strlit(" ");
    let low = lower(name);
    let value = component_value(ctx, low);
    let line = line_of(ctx, name);
    assert(free_of(value, '\n')) by {
        if low == "(request-target)"@ {
            let m = lower(ctx.method);
            assert forall|i: int| 0 <= i < value.len() implies #[trigger] value[i] != '\n' by {
                if i < m.len() {
                    assert(value[i] == crate::text::lower_char(ctx.method[i]));
                    assert(ctx.method[i] != '\n');
                } else if i == m.len() {
                    assert(value[i] == ' ');
                } else {
                    assert(value[i] == ctx.path[i - m.len() - 1]);
                }
            }
        }
    }
    assert forall|i: int| 0 <= i < line.len() implies #[trigger] line[i] != '\n' by {
        if i < low.len() {
            assert(line[i] == low[i]);
        } else if i < low.len() + 2 {
            assert(line[i] == ": "@[i - low.len()]);
        } else {
            assert(line[i] == value[i - low.len() - 2]);
        }
    }
}

/// The shape of a component's line in a request whose values hold no line feed.
proof fn lemma_line_shape(ctx: SigningContextView, name: Seq<char>)
    requires
        single_lined(ctx),
        is_component(lower(name)),
    ensures
        line_of(ctx, name).len() >= 2,
        line_of(ctx, name)[0] == lower(name)[0],
        line_of(ctx, name)[1] == lower(name)[1],
        free_of(line_of(ctx, name), '\n'),
{
    lemma_line_start(ctx, name);
    lemma_line_single(ctx, name);
}

/// Two components with the same line are the same component.
proof fn lemma_line_names(ctx: SigningContextView, x: Seq<char>, y: Seq<char>)
    requires
        single_lined(ctx),
        is_component(lower(x)),
        is_component(lower(y)),
        line_of(ctx, x) == line_of(ctx, y),
    ensures
        lower(x) == lower(y),
{
    lemma_line_shape(ctx, x);
    lemma_line_shape(ctx, y);
    reveal_strlit("(request-target)");
    reveal_strlit("host");
    reveal_strlit("date");
    reveal_strlit("digest");
}

/// A text that ends in a line feed and a line without one splits in one way only.
proof fn lemma_last_line(x: Seq<char>, la: Seq<char>, y: Seq<char>, lb: Seq<char>)
    requires
        free_of(la, '\n'),
        free_of(lb, '\n'),
        x + "\n"@ + la == y + "\n"@ + lb,
    ensures
        x == y,
        la == lb,
{
    reveal_strlit("\n");
    let s = x + "\n"@ + la;
    let t = y + "\n"@ + lb;
    assert(s.len() == x.len() + 1 + la.len());
    assert(t.len() == y.len() + 1 + lb.len());
    assert(s[x.len() as int] == '\n');
    assert(t[y.len() as int] == '\n');
    if x.len() > y.len() {
        assert(t[x.len() as int] == lb[x.len() - y.len() - 1]);
    }
    if y.len() > x.len() {
        assert(s[y.len() as int] == la[y.len() - x.len() - 1]);
    }
    assert(x.len() == y.len());
    assert forall|i: int| 0 <= i < x.len() implies x[i] == y[i] by {
        assert(s[i] == x[i]);
        assert(t[i] == y[i]);
    }
    assert(x =~= y);
    assert forall|i: int| 0 <= i < la.len() implies la[i] == lb[i] by {
        assert(s[x.len() + 1 + i] == la[i]);
        assert(t[y.len() + 1 + i] == lb[i]);
    }
    assert(la =~= lb);
}

/// The canonical string fixes the component list that it was built over: two
/// lists of components that give one request the same canonical string name,
/// in lower case, the same components in the same order. The request's signed
/// values must hold no line feed.
pub proof fn lemma_canonical_order_exact(
    ctx: SigningContextView,
    a: Seq<Seq<char>>,
    b: Seq<Seq<char>>,
)
    requires
        single_lined(ctx),
        all_components(a),
        all_components(b),
        joined_lines(ctx, a) == joined_lines(ctx, b),
    ensures
        a.len() == b.len(),
        forall|i: int| 0 <= i < a.len() ==> lower(#[trigger] a[i]) == lower(b[i]),
    decreases a.len(),
{
    reveal_strlit("\n");
    if a.len() == 0 {
        if b.len() == 1 {
            lemma_line_shape(ctx, b[0]);
            assert(false);
        } else if b.len() >= 2 {
            lemma_line_shape(ctx, b.last());
            assert(joined_lines(ctx, b).len() >= 2);
            assert(false);
        }
    } else if b.len() == 0 {
        if a.len() == 1 {
            lemma_line_shape(ctx, a[0]);
            assert(false);
        } else {
            lemma_line_shape(ctx, a.last());
            assert(joined_lines(ctx, a).len() >= 2);
            assert(false);
        }
    } else if a.len() == 1 && b.len() == 1 {
        lemma_line_names(ctx, a[0], b[0]);
    } else if a.len() == 1 {
        lemma_line_shape(ctx, a[0]);
        let y = joined_lines(ctx, b.drop_last());
        assert(joined_lines(ctx, b)[y.len() as int] == '\n');
        assert(false);
    } else if b.len() == 1 {
        lemma_line_shape(ctx, b[0]);
        let x = joined_lines(ctx, a.drop_last());
        assert(joined_lines(ctx, a)[x.len() as int] == '\n');
        assert(false);
    } else {
        let x = joined_lines(ctx, a.drop_last());
        let y = joined_lines(ctx, b.drop_last());
        lemma_line_shape(ctx, a.last());
        lemma_line_shape(ctx, b.last());
        lemma_last_line(x, line_of(ctx, a.last()), y, line_of(ctx, b.last()));
        lemma_line_names(ctx, a.last(), b.last());
        assert(all_components(a.drop_last())) by {
            assert forall|i: int| 0 <= i < a.drop_last().len() implies is_component(
                lower(#[trigger] a.drop_last()[i]),
            ) by {
                assert(a.drop_last()[i] == a[i]);
            }
        }
        assert(all_components(b.drop_last())) by {
            assert forall|i: int| 0 <= i < b.drop_last().len() implies is_component(
                lower(#[trigger] b.drop_last()[i]),
            ) by {
                assert(b.drop_last()[i] == b[i]);
            }
        }
        lemma_canonical_order_exact(ctx, a.drop_last(), b.drop_last());
        assert forall|i: int| 0 <= i < a.len() implies lower(#[trigger] a[i]) == lower(b[i]) by {
            if i < a.len() - 1 {
                assert(a.drop_last()[i] == a[i]);
                assert(b.drop_last()[i] == b[i]);
            }
        }
    }
}

/// A list of names with the names at two positions exchanged.
pub open spec fn swapped(names: Seq<Seq<char>>, i: int, j: int) -> Seq<Seq<char>> {
    names.update(i, names[j]).update(j, names[i])
}

/// Two different components differ in one of their first two characters.
proof fn lemma_names_differ(x: Seq<char>, y: Seq<char>)
    requires
        is_component(x),
        is_component(y),
        x != y,
    ensures
        x[0] != y[0] || x[1] != y[1],
{
    reveal_strlit("(request-target)");
    reveal_strlit("host");
    reveal_strlit("date");
    reveal_strlit("digest");
}

/// The canonical string over the first `k` names of a list is the beginning
/// of the canonical string over the whole list.
proof fn lemma_joined_prefix(ctx: SigningContextView, names: Seq<Seq<char>>, k: int)
    requires
        0 <= k <= names.len(),
    ensures
        joined_lines(ctx, names.take(k)).len() <= joined_lines(ctx, names).len(),
        joined_lines(ctx, names).subrange(0, joined_lines(ctx, names.take(k)).len() as int)
            == joined_lines(ctx, names.take(k)),
    decreases names.len() - k,
{
    let whole = joined_lines(ctx, names);
    if k == names.len() {
        assert(names.take(k) =~= names);
        assert(whole.subrange(0, whole.len() as int) =~= whole);
    } else if names.len() == 1 {
        assert(names.take(0).len() == 0);
        assert(whole.subrange(0, 0) =~= Seq::<char>::empty());
    } else {
        let front = names.drop_last();
        lemma_joined_prefix(ctx, front, k);
        assert(front.take(k) =~= names.take(k));
        let part = joined_lines(ctx, names.take(k));
        assert(whole.subrange(0, part.len() as int) =~= joined_lines(ctx, front).subrange(
            0,
            part.len() as int,
        ));
    }
}

/// The canonical string holds, where the line of position `i` begins, the
/// first two characters of that position's name.
proof fn lemma_line_in_place(ctx: SigningContextView, names: Seq<Seq<char>>, i: int) -> (at: int)
    requires
        all_components(names),
        0 <= i < names.len(),
    ensures
        at == if i == 0 {
            0
        } else {
            joined_lines(ctx, names.take(i)).len() + 1
        },
        at + 1 < joined_lines(ctx, names).len(),
        joined_lines(ctx, names)[at] == lower(names[i])[0],
        joined_lines(ctx, names)[at + 1] == lower(names[i])[1],
{
    reveal_strlit("\n");
    let upto = names.take(i + 1);
    let part = joined_lines(ctx, upto);
    let whole = joined_lines(ctx, names);
    assert(upto.last() == names[i]);
    assert(upto.drop_last() =~= names.take(i));
    lemma_line_start(ctx, names[i]);
    lemma_joined_prefix(ctx, names, i + 1);
    let at: int = if i == 0 {
        0
    } else {
        joined_lines(ctx, names.take(i)).len() as int + 1
    };
    assert(part[at] == lower(names[i])[0]);
    assert(part[at + 1] == lower(names[i])[1]);
    assert(whole.subrange(0, part.len() as int)[at] == whole[at]);
    assert(whole.subrange(0, part.len() as int)[at + 1] == whole[at + 1]);
    at
}

/// Exchanging two different components of the list changes the canonical
/// string, so that a signature over the one does not cover the other.
pub proof fn lemma_swap_changes_canonical(
    ctx: SigningContextView,
    names: Seq<Seq<char>>,
    i: int,
    j: int,
)
    requires
        all_components(names),
        0 <= i < names.len(),
        0 <= j < names.len(),
        lower(names[i]) != lower(names[j]),
    ensures
        canonical_text_for(ctx, swapped(names, i, j)) is Some,
        canonical_text_for(ctx, swapped(names, i, j)) != canonical_text_for(ctx, names),
{
    let other = swapped(names, i, j);
    assert forall|k: int| 0 <= k < other.len() implies is_component(lower(#[trigger] other[k])) by {
        if k == j {
            assert(other[k] == names[i]);
        } else if k == i {
            assert(other[k] == names[j]);
        } else {
            assert(other[k] == names[k]);
        }
    }
    let first = if i < j {
        i
    } else {
        j
    };
    let second = if i < j {
        j
    } else {
        i
    };
    assert(other[first] == names[second]);
    assert(other.take(first) =~= names.take(first));
    let at = lemma_line_in_place(ctx, names, first);
    let at_other = lemma_line_in_place(ctx, other, first);
    lemma_names_differ(lower(names[first]), lower(names[second]));
}

} // verus!
