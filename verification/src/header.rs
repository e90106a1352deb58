//! The `Signature` header: how it is written and how it is read.
use crate::canonical::texts;
use crate::codec::{base64_bytes, base64_decode, base64_encode, base64_text, is_base64_char};
use crate::error::Error;
use crate::text::{
    chars_of, find_char, first_index_from, free_of, lemma_first_index_from, lemma_first_index_is,
    same_text, string_of,
};
use vstd::prelude::*;

verus! {

/// What a `Signature` header says: the key to verify with, the components
/// that were signed, in the order in which they were signed, and the signature.
#[derive(Clone, Debug, PartialEq, Eq)]
pub struct SignatureHeader {
    pub key_id: String,
    pub headers: Vec<String>,
    pub signature: Vec<u8>,
}

/// A signature header as plain sequences.
pub struct SignatureHeaderView {
    pub key_id: Seq<char>,
    pub headers: Seq<Seq<char>>,
    pub signature: Seq<u8>,
}

impl View for SignatureHeader {
    type V = SignatureHeaderView;

    open spec fn view(&self) -> SignatureHeaderView {
        SignatureHeaderView {
            key_id: self.key_id@,
            headers: texts(self.headers@),
            signature: self.signature@,
        }
    }
}

/// The names of a list, joined by single spaces.
pub open spec fn joined_names(names: Seq<Seq<char>>) -> Seq<char>
    decreases names.len(),
{
    if names.len() == 0 {
        Seq::empty()
    } else if names.len() == 1 {
        names[0]
    } else {
        joined_names(names.drop_last()) + " "@ + names.last()
    }
}

/// One pair of a header value: the name, `=`, and the value in double quotes.
pub open spec fn pair_text(name: Seq<char>, value: Seq<char>) -> Seq<char> {
    name + "=\""@ + value + "\""@
}

/// The header value for a key identifier, a component list and an encoded
/// signature: the pairs `keyId`, `headers` and `signature`, in this order,
/// separated by commas.
pub open spec fn header_text(
    key_id: Seq<char>,
    names: Seq<Seq<char>>,
    encoded_signature: Seq<char>,
) -> Seq<char> {
    pair_text("keyId"@, key_id) + ","@ + pair_text("headers"@, joined_names(names)) + ","@
        + pair_text("signature"@, encoded_signature)
}

/// The names of `headers`, joined by single spaces.
pub fn join_names(headers: &Vec<String>) -> (r: String)
    ensures
        r@ == joined_names(texts(headers@)),
{
    let mut out = String::new();
    let mut i: usize = 0;
    while i < headers.len()
        invariant
            i <= headers@.len(),
            out@ == joined_names(texts(headers@).subrange(0, i as int)),
        decreases headers@.len() - i,
    {
        let ghost before = texts(headers@).subrange(0, i as int);
        let ghost now = texts(headers@).subrange(0, i + 1);
        proof {
            assert(now.drop_last() =~= before);
            assert(now.last() == headers@[i as int]@);
        }
        if i > 0 {
            out.append(" ");
        }
        out.append(headers[i].as_str());
        proof {
            if i == 0 {
                assert(out@ =~= now[0]);
            }
        }
        i += 1;
    }
    proof {
        assert(texts(headers@).subrange(0, headers@.len() as int) =~= texts(headers@));
    }
    out
}

/// Appends the pair `name="value"` to a header value.
fn append_pair(out: &mut String, name: &str, value: &str)
    ensures
        final(out)@ == old(out)@ + pair_text(name@, value@),
{
    let ghost before = out@;
    out.append(name);
    out.append("=\"");
    out.append(value);
    out.append("\"");
    proof {
        assert(out@ =~= before + pair_text(name@, value@));
    }
}

/// The header value for a key identifier, a component list and a signature
/// that is already encoded.
pub fn format_header(key_id: &str, headers: &Vec<String>, encoded_signature: &str) -> (r: String)
    ensures
        r@ == header_text(key_id@, texts(headers@), encoded_signature@),
{
    let names = join_names(headers);
    let mut out = String::new();
    append_pair(&mut out, "keyId", key_id);
    out.append(",");
    append_pair(&mut out, "headers", names.as_str());
    out.append(",");
    append_pair(&mut out, "signature", encoded_signature);
    proof {
        assert(out@ =~= header_text(key_id@, texts(headers@), encoded_signature@));
    }
    out
}

/// The header value for a key identifier, a component list and the bytes of
/// a signature, which are written in base64. Where the identifier holds no
/// double quote and the list is plain, `parse_header` reads the three back.
pub fn build_header(key_id: &str, headers: &Vec<String>, signature: &[u8]) -> (r: String)
    ensures
        r@ == header_text(key_id@, texts(headers@), base64_text(signature@)),
        free_of(key_id@, '"') && plain_names(texts(headers@)) ==> parsed_header(r@) == Some(
            SignatureHeaderView {
                key_id: key_id@,
                headers: texts(headers@),
                signature: signature@,
            },
        ),
{
    let encoded = base64_encode(signature);
    proof {
        assert(free_of(encoded@, '"')) by {
            assert forall|i: int| 0 <= i < encoded@.len() implies #[trigger] encoded@[i]
                != '"' by {
                assert(is_base64_char(encoded@[i]));
            }
        }
        if free_of(key_id@, '"') && plain_names(texts(headers@)) {
            lemma_header_round_trip(key_id@, texts(headers@), encoded@, signature@);
        }
    }
    format_header(key_id, headers, encoded.as_str())
}

/// The first position at or after `from` that holds no space, or the length
/// of `s`.
pub open spec fn skip_spaces(s: Seq<char>, from: int) -> int
    decreases s.len() - from,
{
    if from >= s.len() {
        s.len() as int
    } else if s[from] != ' ' {
        from
    } else {
        skip_spaces(s, from + 1)
    }
}

/// `skip_spaces` moves forward and stays inside the text.
pub proof fn lemma_skip_spaces(s: Seq<char>, from: int)
    requires
        0 <= from <= s.len(),
    ensures
        from <= skip_spaces(s, from) <= s.len(),
    decreases s.len() - from,
{
    if from < s.len() && s[from] == ' ' {
        lemma_skip_spaces(s, from + 1);
    }
}

/// The `name="value"` pairs that a text holds from `from` on, in order, or
/// `None` where the text is not a comma-separated list of such pairs. Spaces
/// before a name are passed over; a value ends at the next double quote.
pub open spec fn params_from(s: Seq<char>, from: int) -> Option<Seq<(Seq<char>, Seq<char>)>>
    decreases s.len() - from,
{
    let start = skip_spaces(s, from);
    let eq = first_index_from(s, '=', start);
    let close = first_index_from(s, '"', eq + 2);
    if from < 0 || eq + 1 >= s.len() || s[eq + 1] != '"' || close >= s.len() {
        None
    } else {
        let first = (s.subrange(start, eq), s.subrange(eq + 2, close));
        if close + 1 == s.len() {
            Some(seq![first])
        } else if s[close + 1] != ',' {
            None
        } else {
            proof {
                lemma_skip_spaces(s, from);
                lemma_first_index_from(s, '=', start);
                lemma_first_index_from(s, '"', eq + 2);
            }
            match params_from(s, close + 2) {
                Some(rest) => Some(seq![first] + rest),
                None => None,
            }
        }
    }
}

/// The value of the first pair with the given name.
pub open spec fn param_value(params: Seq<(Seq<char>, Seq<char>)>, name: Seq<char>) -> Option<
    Seq<char>,
>
    decreases params.len(),
{
    if params.len() == 0 {
        None
    } else if params[0].0 == name {
        Some(params[0].1)
    } else {
        param_value(params.drop_first(), name)
    }
}

/// The pieces of a text between its spaces, from `from` on.
pub open spec fn words_from(s: Seq<char>, from: int) -> Seq<Seq<char>>
    decreases s.len() - from,
{
    let end = first_index_from(s, ' ', from);
    if from < 0 || end >= s.len() {
        seq![s.subrange(from, s.len() as int)]
    } else {
        proof {
            lemma_first_index_from(s, ' ', from);
        }
        seq![s.subrange(from, end)] + words_from(s, end + 1)
    }
}

/// What a header value says, or `None` where it is malformed: where it is no
/// list of pairs, lacks one of `keyId`, `headers` and `signature`, or its
/// signature is no base64 text.
pub open spec fn parsed_header(s: Seq<char>) -> Option<SignatureHeaderView> {
    match params_from(s, 0) {
        None => None,
        Some(params) => match (
            param_value(params, "keyId"@),
            param_value(params, "headers"@),
            param_value(params, "signature"@),
        ) {
            (Some(key_id), Some(names), Some(encoded)) => match base64_bytes(encoded) {
                Some(signature) => Some(
                    SignatureHeaderView { key_id, headers: words_from(names, 0), signature },
                ),
                None => None,
            },
            _ => None,
        },
    }
}

/// One `name="value"` pair of a header.
#[derive(Clone, Debug, PartialEq, Eq)]
pub struct Param {
    pub name: String,
    pub value: String,
}

/// The pairs of a list as texts.
pub open spec fn param_texts(params: Seq<Param>) -> Seq<(Seq<char>, Seq<char>)> {
    Seq::new(params.len(), |i: int| (params[i].name@, params[i].value@))
}

/// The `name="value"` pairs of a header value, in order.
pub fn parse_params(text: &str) -> (r: Option<Vec<Param>>)
    ensures
        match params_from(text@, 0) {
            Some(params) => r matches Some(found) && param_texts(found@) == params,
            None => r is None,
        },
{
    let v = chars_of(text);
    let mut found: Vec<Param> = Vec::new();
    let mut pos: usize = 0;
    loop
        invariant
            v@ == text@,
            pos <= v@.len(),
            params_from(v@, 0) == match params_from(v@, pos as int) {
                Some(rest) => Some(param_texts(found@) + rest),
                None => None::<Seq<(Seq<char>, Seq<char>)>>,
            },
        decreases v@.len() - pos,
    {
        proof {
            lemma_skip_spaces(v@, pos as int);
        }
        let mut start: usize = pos;
        while start < v.len() && v[start] == ' '
            invariant
                pos <= start <= v@.len(),
                skip_spaces(v@, pos as int) == skip_spaces(v@, start as int),
            decreases v@.len() - start,
        {
            start += 1;
        }
        let eq = find_char(v.as_slice(), '=', start);
        if eq >= v.len() || eq + 1 >= v.len() || v[eq + 1] != '"' {
            return None;
        }
        let close = find_char(v.as_slice(), '"', eq + 2);
        if close >= v.len() {
            return None;
        }
        let name = string_of(v.as_slice(), start, eq);
        let value = string_of(v.as_slice(), eq + 2, close);
        let ghost before = param_texts(found@);
        found.push(Param { name, value });
        proof {
            assert(param_texts(found@) =~= before + seq![
                (v@.subrange(start as int, eq as int), v@.subrange(eq + 2, close as int)),
            ]);
        }
        if close + 1 == v.len() {
            proof {
                assert(params_from(v@, pos as int) == Some(
                    seq![(v@.subrange(start as int, eq as int), v@.subrange(eq + 2, close as int))],
                ));
            }
            return Some(found);
        }
        if v[close + 1] != ',' {
            return None;
        }
        proof {
            let first = (v@.subrange(start as int, eq as int), v@.subrange(eq + 2, close as int));
            match params_from(v@, close + 2) {
                Some(rest) => {
                    assert(before + (seq![first] + rest) =~= (before + seq![first]) + rest);
                },
                None => {},
            }
        }
        pos = close + 2;
    }
}

/// The value of the first pair named `name`.
pub fn find_param<'a>(params: &'a Vec<Param>, name: &str) -> (r: Option<&'a String>)
    ensures
        match param_value(param_texts(params@), name@) {
            Some(value) => r matches Some(found) && found@ == value,
            None => r is None,
        },
{
    let mut i: usize = 0;
    proof {
        assert(param_texts(params@).subrange(0, params@.len() as int) =~= param_texts(params@));
    }
    while i < params.len()
        invariant
            i <= params@.len(),
            param_value(param_texts(params@), name@) == param_value(
                param_texts(params@).subrange(i as int, params@.len() as int),
                name@,
            ),
        decreases params@.len() - i,
    {
        let ghost rest = param_texts(params@).subrange(i as int, params@.len() as int);
        proof {
            assert(rest[0] == (params@[i as int].name@, params@[i as int].value@));
            assert(rest.drop_first() =~= param_texts(params@).subrange(
                i + 1,
                params@.len() as int,
            ));
        }
        if same_text(params[i].name.as_str(), name) {
            return Some(&params[i].value);
        }
        i += 1;
    }
    None
}

/// The pieces of a text between its spaces.
pub fn split_words(text: &str) -> (r: Vec<String>)
    ensures
        texts(r@) == words_from(text@, 0),
{
    let v = chars_of(text);
    let mut out: Vec<String> = Vec::new();
    let mut pos: usize = 0;
    loop
        invariant
            v@ == text@,
            pos <= v@.len(),
            words_from(v@, 0) == texts(out@) + words_from(v@, pos as int),
        decreases v@.len() - pos,
    {
        let end = find_char(v.as_slice(), ' ', pos);
        let word = string_of(v.as_slice(), pos, end);
        let ghost before = texts(out@);
        out.push(word);
        proof {
            assert(texts(out@) =~= before + seq![v@.subrange(pos as int, end as int)]);
        }
        if end >= v.len() {
            proof {
                assert(v@.subrange(pos as int, end as int) == v@.subrange(
                    pos as int,
                    v@.len() as int,
                ));
            }
            return out;
        }
        proof {
            assert(before + (seq![v@.subrange(pos as int, end as int)] + words_from(v@, end + 1))
                =~= (before + seq![v@.subrange(pos as int, end as int)]) + words_from(
                v@,
                end + 1,
            ));
        }
        pos = end + 1;
    }
}

/// Reads a `Signature` header value. It is malformed, and refused as such,
/// where it is no list of `name="value"` pairs, where `keyId`, `headers` or
/// `signature` is missing, or where the signature is not valid base64.
pub fn parse_header(text: &str) -> (r: Result<SignatureHeader, Error>)
    ensures
        match parsed_header(text@) {
            Some(header) => r matches Ok(found) && found@ == header,
            None => r matches Err(e) && e == Error::MalformedSignatureHeader,
        },
{
    let params = match parse_params(text) {
        Some(params) => params,
        None => {
            return Err(Error::MalformedSignatureHeader);
        },
    };
    let key_id = find_param(&params, "keyId");
    let names = find_param(&params, "headers");
    let encoded = find_param(&params, "signature");
    match (key_id, names, encoded) {
        (Some(key_id), Some(names), Some(encoded)) => {
            match base64_decode(encoded.as_str()) {
                Some(signature) => Ok(
                    SignatureHeader {
                        key_id: key_id.clone(),
                        headers: split_words(names.as_str()),
                        signature,
                    },
                ),
                None => Err(Error::MalformedSignatureHeader),
            }
        },
        _ => Err(Error::MalformedSignatureHeader),
    }
}

/// Where the text from `from` on starts with the pair `name="value"`, that
/// pair is the first that `params_from` reads there, and the others are those
/// that follow the comma after it. The name is not empty and holds no `=`,
/// nor a space in front; the value holds no double quote.
proof fn lemma_first_pair(s: Seq<char>, from: int, name: Seq<char>, value: Seq<char>)
    requires
        0 <= from,
        name.len() > 0,
        name[0] != ' ',
        free_of(name, '='),
        free_of(value, '"'),
        from + pair_text(name, value).len() <= s.len(),
        s.subrange(from, from + pair_text(name, value).len()) == pair_text(name, value),
    ensures
        from + pair_text(name, value).len() == s.len() ==> params_from(s, from) == Some(
            seq![(name, value)],
        ),
        from + pair_text(name, value).len() < s.len() && s[from + pair_text(name, value).len()]
            == ',' ==> params_from(s, from) == match params_from(
            s,
            from + pair_text(name, value).len() + 1,
        ) {
            Some(rest) => Some(seq![(name, value)] + rest),
            None => None::<Seq<(Seq<char>, Seq<char>)>>,
        },
{
    reveal_strlit("=\"");
    reveal_strlit("\"");
    let pair = pair_text(name, value);
    let nl: int = name.len() as int;
    let vl: int = value.len() as int;
    let eq: int = from + nl;
    let close: int = eq + 2 + vl;
    assert(pair.len() == nl + vl + 3);
    assert forall|j: int| 0 <= j < pair.len() implies s[from + j] == pair[j] by {
        assert(s.subrange(from, from + pair.len())[j] == s[from + j]);
    }
    assert forall|j: int| 0 <= j < name.len() implies s[from + j] == name[j] by {
        assert(pair[j] == name[j]);
    }
    assert(s[eq] == '=') by {
        assert(pair[nl] == '=');
    }
    assert(s[eq + 1] == '"') by {
        assert(pair[nl + 1] == '"');
    }
    assert forall|j: int| 0 <= j < value.len() implies s[eq + 2 + j] == value[j] by {
        assert(pair[nl + 2 + j] == value[j]);
    }
    assert(s[close] == '"') by {
        assert(pair[nl + 2 + vl] == '"');
    }
    assert(skip_spaces(s, from) == from);
    assert forall|j: int| from <= j < eq implies s[j] != '=' by {
        assert(s[from + (j - from)] == name[j - from]);
    }
    assert forall|j: int| eq + 2 <= j < close implies s[j] != '"' by {
        assert(s[eq + 2 + (j - eq - 2)] == value[j - eq - 2]);
    }
    lemma_first_index_is(s, '=', from, eq);
    lemma_first_index_is(s, '"', eq + 2, close);
    assert(s.subrange(from, eq) =~= name);
    assert(s.subrange(eq + 2, close) =~= value);
}

/// The pairs that are read from a header value of three pairs.
proof fn lemma_three_pairs(key_id: Seq<char>, names: Seq<char>, encoded: Seq<char>)
    requires
        free_of(key_id, '"'),
        free_of(names, '"'),
        free_of(encoded, '"'),
    ensures
        params_from(
            pair_text("keyId"@, key_id) + ","@ + pair_text("headers"@, names) + ","@ + pair_text(
                "signature"@,
                encoded,
            ),
            0,
        ) == Some(
            seq![("keyId"@, key_id), ("headers"@, names), ("signature"@, encoded)],
        ),
{
    reveal_strlit("keyId");
    reveal_strlit("headers");
    reveal_strlit("signature");
    reveal_strlit(",");
    let a = pair_text("keyId"@, key_id);
    let b = pair_text("headers"@, names);
    let c = pair_text("signature"@, encoded);
    let s = a + ","@ + b + ","@ + c;
    let at_b: int = a.len() as int + 1;
    let at_c: int = at_b + b.len() + 1;
    assert(s.len() == at_c + c.len());
    assert(s.subrange(0, a.len() as int) =~= a);
    assert(s.subrange(at_b, at_b + b.len()) =~= b);
    assert(s.subrange(at_c, at_c + c.len()) =~= c);
    assert(s[a.len() as int] == ',');
    assert(s[at_b + b.len()] == ',');
    lemma_first_pair(s, at_c, "signature"@, encoded);
    lemma_first_pair(s, at_b, "headers"@, names);
    lemma_first_pair(s, 0, "keyId"@, key_id);
    assert(seq![("headers"@, names)] + seq![("signature"@, encoded)] =~= seq![
        ("headers"@, names),
        ("signature"@, encoded),
    ]);
    assert(seq![("keyId"@, key_id)] + seq![("headers"@, names), ("signature"@, encoded)] =~= seq![
        ("keyId"@, key_id),
        ("headers"@, names),
        ("signature"@, encoded),
    ]);
}

/// A word without a space, put after a text and a space, is one more word.
proof fn lemma_words_append(s: Seq<char>, word: Seq<char>, from: int)
    requires
        0 <= from <= s.len(),
        free_of(word, ' '),
    ensures
        words_from(s + " "@ + word, from) == words_from(s, from) + seq![word],
    decreases s.len() - from,
{
    reveal_strlit(" ");
    let t = s + " "@ + word;
    let n: int = s.len() as int;
    let end = first_index_from(s, ' ', from);
    lemma_first_index_from(s, ' ', from);
    assert forall|j: int| 0 <= j < s.len() implies t[j] == s[j] by {}
    assert(t[n] == ' ');
    assert forall|j: int| 0 <= j < word.len() implies t[n + 1 + j] == word[j] by {}
    if end >= n {
        lemma_first_index_is(t, ' ', from, n);
        lemma_first_index_is(t, ' ', n + 1, t.len() as int);
        assert(t.subrange(from, n) =~= s.subrange(from, n));
        assert(t.subrange(n + 1, t.len() as int) =~= word);
        assert(words_from(t, n + 1) == seq![word]);
    } else {
        lemma_first_index_is(t, ' ', from, end);
        lemma_words_append(s, word, end + 1);
        assert(t.subrange(from, end) =~= s.subrange(from, end));
        assert(seq![s.subrange(from, end)] + (words_from(s, end + 1) + seq![word]) =~= (seq![
            s.subrange(from, end),
        ] + words_from(s, end + 1)) + seq![word]);
    }
}

/// Whether a list can stand in a header: it is not empty, and no name holds a
/// space or a double quote.
pub open spec fn plain_names(names: Seq<Seq<char>>) -> bool {
    names.len() > 0 && forall|i: int|
        0 <= i < names.len() ==> free_of(#[trigger] names[i], ' ') && free_of(names[i], '"')
}

/// The words of a joined list are the names of the list, and what holds no
/// double quote is joined to a text that holds none.
proof fn lemma_words_of_joined(names: Seq<Seq<char>>)
    requires
        plain_names(names),
    ensures
        words_from(joined_names(names), 0) == names,
        free_of(joined_names(names), '"'),
    decreases names.len(),
{
    reveal_strlit(" ");
    if names.len() == 1 {
        lemma_first_index_is(names[0], ' ', 0, names[0].len() as int);
        assert(names[0].subrange(0, names[0].len() as int) =~= names[0]);
        assert(seq![names[0]] =~= names);
    } else {
        let front = names.drop_last();
        assert(plain_names(front)) by {
            assert forall|i: int| 0 <= i < front.len() implies free_of(#[trigger] front[i], ' ')
                && free_of(front[i], '"') by {
                assert(front[i] == names[i]);
            }
        }
        lemma_words_of_joined(front);
        lemma_words_append(joined_names(front), names.last(), 0);
        assert(front + seq![names.last()] =~= names);
        let joined = joined_names(names);
        assert forall|i: int| 0 <= i < joined.len() implies #[trigger] joined[i] != '"' by {
            let n: int = joined_names(front).len() as int;
            if i < n {
                assert(joined[i] == joined_names(front)[i]);
            } else if i == n {
                assert(joined[i] == ' ');
            } else {
                assert(joined[i] == names.last()[i - n - 1]);
            }
        }
    }
}

/// Reading gives back what was written: a header value made of a key
/// identifier without a double quote, a plain list of names and the base64
/// text of a signature is read as that identifier, that list and that signature.
pub proof fn lemma_header_round_trip(
    key_id: Seq<char>,
    names: Seq<Seq<char>>,
    encoded: Seq<char>,
    signature: Seq<u8>,
)
    requires
        free_of(key_id, '"'),
        plain_names(names),
        free_of(encoded, '"'),
        base64_bytes(encoded) == Some(signature),
    ensures
        parsed_header(header_text(key_id, names, encoded)) == Some(
            SignatureHeaderView { key_id, headers: names, signature },
        ),
{
    reveal_strlit("keyId");
    reveal_strlit("headers");
    reveal_strlit("signature");
    lemma_words_of_joined(names);
    lemma_three_pairs(key_id, joined_names(names), encoded);
    let params = seq![
        ("keyId"@, key_id),
        ("headers"@, joined_names(names)),
        ("signature"@, encoded),
    ];
    let second = params.drop_first();
    let third = second.drop_first();
    assert(second[0] == ("headers"@, joined_names(names)));
    assert(third[0] == ("signature"@, encoded));
    assert("keyId"@.len() == 5 && "headers"@.len() == 7 && "signature"@.len() == 9);
    assert(param_value(params, "keyId"@) == Some(key_id));
    assert(param_value(second, "headers"@) == Some(joined_names(names)));
    assert(param_value(params, "headers"@) == Some(joined_names(names)));
    assert(param_value(third, "signature"@) == Some(encoded));
    assert(param_value(second, "signature"@) == Some(encoded));
    assert(param_value(params, "signature"@) == Some(encoded));
}

} // verus!
