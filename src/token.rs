use vstd::prelude::*;

verus! {

/// The text that opens every reshuffle token.
pub open spec fn token_prefix() -> Seq<char> {
    "reshuffle:"@
}

/// One character of a name as it stands in a token: a backslash or a comma gets a
/// backslash in front of it, any other character stands as it is.
pub open spec fn escape_char(c: char) -> Seq<char> {
    if c == '\\' || c == ',' {
        seq!['\\', c]
    } else {
        seq![c]
    }
}

/// A name as it stands in a token.
pub open spec fn escape(s: Seq<char>) -> Seq<char>
    decreases s.len(),
{
    if s.len() == 0 {
        Seq::empty()
    } else {
        escape_char(s[0]) + escape(s.drop_first())
    }
}

/// The escaped names of `ns`, separated by plain commas.
pub open spec fn encode_names(ns: Seq<Seq<char>>) -> Seq<char>
    decreases ns.len(),
{
    if ns.len() == 0 {
        Seq::empty()
    } else if ns.len() == 1 {
        escape(ns[0])
    } else {
        encode_names(ns.drop_last()) + seq![','] + escape(ns.last())
    }
}

/// The reshuffle token that carries the list `ns`.
pub open spec fn token_of(ns: Seq<Seq<char>>) -> Seq<char> {
    token_prefix() + encode_names(ns)
}

/// Reads the rest `s` of a token's body, with the names `done` already read and
/// `cur` the name being read; `None` on a backslash that escapes nothing.
pub open spec fn decode_from(s: Seq<char>, done: Seq<Seq<char>>, cur: Seq<char>) -> Option<
    Seq<Seq<char>>,
>
    decreases s.len(),
{
    if s.len() == 0 {
        Some(done.push(cur))
    } else if s[0] == '\\' {
        if s.len() >= 2 && (s[1] == '\\' || s[1] == ',') {
            decode_from(s.subrange(2, s.len() as int), done, cur.push(s[1]))
        } else {
            None
        }
    } else if s[0] == ',' {
        decode_from(s.drop_first(), done.push(cur), Seq::empty())
    } else {
        decode_from(s.drop_first(), done, cur.push(s[0]))
    }
}

/// The list that the token `t` carries, or `None` where `t` is no well-formed token.
pub open spec fn names_of_token(t: Seq<char>) -> Option<Seq<Seq<char>>> {
    let k = token_prefix().len() as int;
    if t.len() >= k && t.subrange(0, k) == token_prefix() {
        decode_from(t.subrange(k, t.len() as int), Seq::empty(), Seq::empty())
    } else {
        None
    }
}

proof fn lemma_escape_push(s: Seq<char>, c: char)
    ensures
        escape(s.push(c)) == escape(s) + escape_char(c),
    decreases s.len(),
{
    if s.len() == 0 {
        assert(s.push(c).drop_first() =~= Seq::<char>::empty());
        assert(escape(Seq::<char>::empty()) == Seq::<char>::empty());
        assert(s.push(c)[0] == c);
        assert(escape(s) == Seq::<char>::empty());
        assert(escape(s.push(c)) =~= escape(s) + escape_char(c));
    } else {
        assert(s.push(c).drop_first() =~= s.drop_first().push(c));
        lemma_escape_push(s.drop_first(), c);
        assert(escape(s.push(c)) =~= escape(s) + escape_char(c));
    }
}

proof fn lemma_decode_escape(x: Seq<char>, rest: Seq<char>, done: Seq<Seq<char>>, cur: Seq<char>)
    ensures
        decode_from(escape(x) + rest, done, cur) == decode_from(rest, done, cur + x),
    decreases x.len(),
{
    if x.len() == 0 {
        assert(escape(x) + rest =~= rest);
        assert(cur + x =~= cur);
    } else {
        let c = x[0];
        let s = escape(x) + rest;
        let tail = escape(x.drop_first()) + rest;
        lemma_decode_escape(x.drop_first(), rest, done, cur.push(c));
        assert(cur.push(c) + x.drop_first() =~= cur + x);
        if c == '\\' || c == ',' {
            assert(s.subrange(2, s.len() as int) =~= tail);
        } else {
            assert(s.drop_first() =~= tail);
        }
    }
}

proof fn lemma_decode_encode(ns: Seq<Seq<char>>, rest: Seq<char>, done: Seq<Seq<char>>)
    requires
        ns.len() >= 1,
    ensures
        decode_from(encode_names(ns) + rest, done, Seq::empty()) == decode_from(
            rest,
            done + ns.drop_last(),
            ns.last(),
        ),
    decreases ns.len(),
{
    if ns.len() == 1 {
        lemma_decode_escape(ns[0], rest, done, Seq::empty());
        assert(Seq::<char>::empty() + ns[0] =~= ns[0]);
        assert(done + ns.drop_last() =~= done);
    } else {
        let p = ns.drop_last();
        let r2 = seq![','] + escape(ns.last()) + rest;
        assert(encode_names(ns) + rest =~= encode_names(p) + r2);
        lemma_decode_encode(p, r2, done);
        assert(r2.drop_first() =~= escape(ns.last()) + rest);
        lemma_decode_escape(ns.last(), rest, (done + p.drop_last()).push(p.last()), Seq::empty());
        assert((done + p.drop_last()).push(p.last()) =~= done + ns.drop_last());
        assert(Seq::<char>::empty() + ns.last() =~= ns.last());
    }
}

/// Reading back the token of a list gives the list: names may hold any character,
/// commas and backslashes included.
pub proof fn lemma_token_round_trip(ns: Seq<Seq<char>>)
    requires
        ns.len() >= 1,
    ensures
        names_of_token(token_of(ns)) == Some(ns),
{
    let t = token_of(ns);
    let k = token_prefix().len() as int;
    assert(t.subrange(0, k) =~= token_prefix());
    assert(t.subrange(k, t.len() as int) =~= encode_names(ns) + Seq::empty());
    lemma_decode_encode(ns, Seq::empty(), Seq::empty());
    assert((Seq::<Seq<char>>::empty() + ns.drop_last()).push(ns.last()) =~= ns);
}

/// Appends `s`, escaped, to `out`.
fn append_escaped(out: &mut String, s: &str)
    ensures
        final(out)@ == old(out)@ + escape(s@),
{
    let n = s.unicode_len();
    let mut i: usize = 0;
    assert(s@.subrange(0, 0) =~= Seq::<char>::empty());
    assert(out@ =~= old(out)@ + escape(s@.subrange(0, 0)));
    while i < n
        invariant
            n == s@.len(),
            i <= n,
            out@ == old(out)@ + escape(s@.subrange(0, i as int)),
        decreases n - i,
    {
        let c = s.get_char(i);
        proof {
            reveal_strlit("\\");
            assert(s@.subrange(0, i + 1) =~= s@.subrange(0, i as int).push(c));
            lemma_escape_push(s@.subrange(0, i as int), c);
        }
        if c == '\\' || c == ',' {
            out.append("\\");
        }
        out.append(s.substring_char(i, i + 1));
        assert(out@ =~= old(out)@ + escape(s@.subrange(0, i + 1)));
        i = i + 1;
    }
    assert(s@.subrange(0, n as int) =~= s@);
}

/// The reshuffle token that carries `names`: `reshuffle:` and then the names, each with
/// a backslash before its commas and backslashes, separated by commas.
pub fn encode_token(names: &Vec<String>) -> (r: String)
    ensures
        r@ == token_of(names.deep_view()),
{
    let mut r = String::from_str("reshuffle:");
    let mut i: usize = 0;
    while i < names.len()
        invariant
            i <= names.len(),
            r@ == token_prefix() + encode_names(names.deep_view().subrange(0, i as int)),
        decreases names.len() - i,
    {
        let ghost before = names.deep_view().subrange(0, i as int);
        let ghost after = names.deep_view().subrange(0, i + 1);
        assert(after.drop_last() =~= before);
        if i > 0 {
            proof {
                reveal_strlit(",");
            }
            r.append(",");
        }
        append_escaped(&mut r, names[i].as_str());
        assert(r@ =~= token_prefix() + encode_names(after));
        i = i + 1;
    }
    assert(names.deep_view().subrange(0, names.len() as int) =~= names.deep_view());
    r
}

/// The list that the token `t` carries, or `None` where `t` does not open with
/// `reshuffle:` or holds a backslash before anything but a comma or a backslash.
pub fn decode_token(t: &str) -> (r: Option<Vec<String>>)
    ensures
        r matches Some(v) ==> names_of_token(t@) == Some(v.deep_view()),
        r is None ==> names_of_token(t@) is None,
{
    let n = t.unicode_len();
    let k = "reshuffle:".unicode_len();
    if n < k {
        return None;
    }
    let head = String::from_str(t.substring_char(0, k));
    let prefix = String::from_str("reshuffle:");
    if !(head == prefix) {
        return None;
    }
    let mut done: Vec<String> = Vec::new();
    let mut cur = String::new();
    let mut i: usize = k;
    proof {
        reveal_strlit("reshuffle:");
    }
    assert(done.deep_view() =~= Seq::<Seq<char>>::empty());
    while i < n
        invariant
            n == t@.len(),
            k == token_prefix().len(),
            k <= i <= n,
            names_of_token(t@) == decode_from(t@.subrange(i as int, n as int), done.deep_view(), cur@),
        decreases n - i,
    {
        let ghost s = t@.subrange(i as int, n as int);
        let ghost old_cur = cur@;
        let c = t.get_char(i);
        if c == '\\' {
            if i + 1 < n && (t.get_char(i + 1) == '\\' || t.get_char(i + 1) == ',') {
                cur.append(t.substring_char(i + 1, i + 2));
                assert(cur@ =~= old_cur.push(s[1]));
                assert(s.subrange(2, s.len() as int) =~= t@.subrange(i + 2, n as int));
                i = i + 2;
            } else {
                return None;
            }
        } else if c == ',' {
            let ghost before = done.deep_view();
            let ghost word = cur@;
            done.push(cur);
            assert(done.deep_view() =~= before.push(word));
            assert(s.drop_first() =~= t@.subrange(i + 1, n as int));
            cur = String::new();
            i = i + 1;
        } else {
            cur.append(t.substring_char(i, i + 1));
            assert(cur@ =~= old_cur.push(s[0]));
            assert(s.drop_first() =~= t@.subrange(i + 1, n as int));
            i = i + 1;
        }
    }
    let ghost before = done.deep_view();
    let ghost word = cur@;
    done.push(cur);
    assert(done.deep_view() =~= before.push(word));
    Some(done)
}

} // verus!
