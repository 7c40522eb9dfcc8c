//! The persistence format of the three containers: one canonical,
//! pretty-printed JSON array per file, written wholesale on every save
//! and parsed back on startup. Writing a container and parsing the text
//! again gives the container back, element for element.

use vstd::prelude::*;
use vstd::string::StringExecFns;
use crate::collection::{Collection, CollectionView};
use crate::dec::{dec_digits, push_dec_u64};
use crate::error::AppError;
use crate::hitokoto::{Hitokoto, HitokotoView};
use crate::user::{User, UserView};
use crate::json::{
    enc_array, enc_array_mid, lemma_enc_array_mid_append, lemma_p_array_enc, lemma_p_lit_exact,
    lemma_p_opt_str_enc, lemma_p_string_body_enc, lemma_p_u32_enc, lemma_p_u64_enc, opt_str_enc,
    p_array, p_array_rest, p_lit, p_opt_str, p_string_body, p_u32, p_u64, str_enc,
};

verus! {

/// The encoder of one string-list element.
pub open spec fn str_elem_enc() -> spec_fn(Seq<char>) -> Seq<char> {
    |s: Seq<char>| str_enc(s)
}

/// The parser of one string-list element.
pub open spec fn str_elem_p() -> spec_fn(Seq<char>) -> Option<(Seq<char>, Seq<char>)> {
    |r: Seq<char>| p_string_body(r)
}

/// A list of strings as written, one array item per string.
pub open spec fn enc_str_list(l: Seq<Seq<char>>) -> Seq<char> {
    enc_array(l, str_elem_enc(), "[\n      \""@, ",\n      \""@, "\n    ]"@)
}

/// Consumes a written list of strings.
pub open spec fn p_str_list(rem: Seq<char>) -> Option<(Seq<Seq<char>>, Seq<char>)> {
    p_array(rem, str_elem_p(), "[\n      \""@, ",\n      \""@, "\n    ]"@)
}

/// A written list of strings parses back to the list.
pub proof fn lemma_p_str_list_enc(l: Seq<Seq<char>>, rest: Seq<char>)
    ensures
        p_str_list(enc_str_list(l) + rest) == Some((l, rest)),
{
    reveal_strlit("[\n      \"");
    reveal_strlit(",\n      \"");
    reveal_strlit("\n    ]");
    assert forall|k: int, rr: Seq<char>| 0 <= k < l.len() implies #[trigger] str_elem_p()(
        str_elem_enc()(l[k]) + rr,
    ) == Some((l[k], rr)) by {
        lemma_p_string_body_enc(l[k], rr);
    }
    lemma_p_array_enc(
        l,
        str_elem_enc(),
        str_elem_p(),
        "[\n      \""@,
        ",\n      \""@,
        "\n    ]"@,
        rest,
    );
}

/// Appends a list of strings.
pub fn push_str_list(s: &mut String, l: &Vec<String>)
    ensures
        final(s)@ == old(s)@ + enc_str_list(l.deep_view()),
{
    let ghost s0 = s@;
    let ghost dv = l.deep_view();
    if l.len() == 0 {
        s.append("[]");
        proof {
            assert(dv.len() == 0);
            assert(s@ =~= s0 + enc_str_list(dv));
        }
        return ;
    }
    s.append("[\n      \"");
    crate::json::push_str_enc(s, l[0].as_str());
    let mut k: usize = 1;
    while k < l.len()
        invariant
            1 <= k <= l@.len(),
            dv == l.deep_view(),
            dv.len() == l@.len(),
            s@ == s0 + ("[\n      \""@ + str_enc(dv[0]) + enc_array_mid(
                dv.subrange(1, k as int),
                str_elem_enc(),
                ",\n      \""@,
            )),
        decreases l@.len() - k,
    {
        s.append(",\n      \"");
        crate::json::push_str_enc(s, l[k].as_str());
        proof {
            lemma_enc_array_mid_append(
                dv.subrange(1, k as int),
                seq![dv[k as int]],
                str_elem_enc(),
                ",\n      \""@,
            );
            assert(seq![dv[k as int]].drop_first() =~= Seq::<Seq<char>>::empty());
            assert(enc_array_mid(Seq::<Seq<char>>::empty(), str_elem_enc(), ",\n      \""@)
                =~= Seq::<char>::empty());
            assert(enc_array_mid(seq![dv[k as int]], str_elem_enc(), ",\n      \""@) =~= ",\n      \""@
                + str_enc(dv[k as int]));
            assert(dv.subrange(1, k as int) + seq![dv[k as int]] =~= dv.subrange(1, k as int + 1));
            assert(s@ =~= s0 + ("[\n      \""@ + str_enc(dv[0]) + enc_array_mid(
                dv.subrange(1, k as int + 1),
                str_elem_enc(),
                ",\n      \""@,
            )));
        }
        k += 1;
    }
    s.append("\n    ]");
    proof {
        assert(dv.subrange(1, dv.len() as int) =~= dv.drop_first());
        assert(s@ =~= s0 + enc_str_list(dv));
    }
}

/// Consumes a written list of strings at the cursor.
pub fn parse_str_list_at(s: &str, pos: &mut usize) -> (r: Option<Vec<String>>)
    requires
        *old(pos) <= s@.len(),
    ensures
        r matches Some(v) ==> *old(pos) < *final(pos) <= s@.len() && p_str_list(
            s@.skip(*old(pos) as int),
        ) == Some((v.deep_view(), s@.skip(*final(pos) as int))),
        r is None ==> p_str_list(s@.skip(*old(pos) as int)) is None,
{
    let ghost i0 = *pos as int;
    if crate::json::eat_lit(s, pos, "[]") {
        let out: Vec<String> = Vec::new();
        proof {
            reveal_strlit("[]");
            assert(out.deep_view() =~= Seq::<Seq<char>>::empty());
        }
        return Some(out);
    }
    if !crate::json::eat_lit(s, pos, "[\n      \"") {
        return None;
    }
    let first = match crate::json::parse_string_at(s, pos) {
        Some(v) => v,
        None => {
            return None;
        },
    };
    let mut out: Vec<String> = Vec::new();
    out.push(first);
    proof {
        assert(out.deep_view() =~= seq![out@[0]@]);
    }
    loop
        invariant
            i0 == *old(pos) as int,
            0 <= i0 <= *pos <= s@.len(),
            p_str_list(s@.skip(i0)) == p_array_rest(
                s@.skip(*pos as int),
                str_elem_p(),
                ",\n      \""@,
                "\n    ]"@,
                out.deep_view(),
            ),
        decreases s@.len() - *pos,
    {
        let ghost posq = *pos as int;
        let ghost outq = out.deep_view();
        if crate::json::eat_lit(s, pos, "\n    ]") {
            proof {
                reveal_strlit("\n    ]");
                assert(p_str_list(s@.skip(i0)) == Some((outq, s@.skip(*pos as int))));
                assert(i0 < *pos as int);
            }
            return Some(out);
        }
        if !crate::json::eat_lit(s, pos, ",\n      \"") {
            proof {
                assert(p_array_rest(
                    s@.skip(posq),
                    str_elem_p(),
                    ",\n      \""@,
                    "\n    ]"@,
                    outq,
                ) is None);
            }
            return None;
        }
        let ghost pos1 = *pos as int;
        match crate::json::parse_string_at(s, pos) {
            Some(v) => {
                let ghost pos2 = *pos as int;
                let ghost vv = v@;
                out.push(v);
                proof {
                    assert(out.deep_view() =~= outq.push(vv));
                    assert(str_elem_p()(s@.skip(pos1)) == Some((vv, s@.skip(pos2))));
                    assert(s@.skip(pos2).len() < s@.skip(posq).len());
                    assert(p_array_rest(
                        s@.skip(posq),
                        str_elem_p(),
                        ",\n      \""@,
                        "\n    ]"@,
                        outq,
                    ) == p_array_rest(
                        s@.skip(pos2),
                        str_elem_p(),
                        ",\n      \""@,
                        "\n    ]"@,
                        outq.push(vv),
                    ));
                }
            },
            None => {
                proof {
                    assert(str_elem_p()(s@.skip(pos1)) is None);
                    assert(p_array_rest(
                        s@.skip(posq),
                        str_elem_p(),
                        ",\n      \""@,
                        "\n    ]"@,
                        outq,
                    ) is None);
                }
                return None;
            },
        }
    }
}

/// One hitokoto record as written.

/// One hitokoto record as written.
pub open spec fn enc_quote(v: HitokotoView) -> Seq<char> {
    "{\n    \"uuid\": \""@ + str_enc(v.uuid) + ",\n    \"hitokoto\": \""@ + str_enc(v.hitokoto)
        + ",\n    \"type\": \""@ + str_enc(v.hitokoto_type) + ",\n    \"from\": \""@ + str_enc(
        v.from,
    ) + ",\n    \"from_who\": "@ + opt_str_enc(v.from_who) + ",\n    \"user\": \""@ + str_enc(
        v.user,
    ) + ",\n    \"user_id\": "@ + dec_digits(v.user_id as nat) + ",\n    \"created_at\": "@
        + dec_digits(v.created_at as nat) + ",\n    \"length\": "@ + dec_digits(v.length as nat)
        + "\n  }"@
}

/// Consumes one hitokoto record.
pub open spec fn p_quote(rem: Seq<char>) -> Option<(HitokotoView, Seq<char>)> {
    match p_lit(rem, "{\n    \"uuid\": \""@) {
        None => None,
        Some(r1) => match p_string_body(r1) {
            None => None,
            Some((uuid, r2)) => match p_lit(r2, ",\n    \"hitokoto\": \""@) {
                None => None,
                Some(r3) => match p_string_body(r3) {
                    None => None,
                    Some((hitokoto, r4)) => match p_lit(r4, ",\n    \"type\": \""@) {
                        None => None,
                        Some(r5) => match p_string_body(r5) {
                            None => None,
                            Some((hitokoto_type, r6)) => match p_lit(r6, ",\n    \"from\": \""@) {
                                None => None,
                                Some(r7) => match p_string_body(r7) {
                                    None => None,
                                    Some((from, r8)) => match p_lit(
                                        r8,
                                        ",\n    \"from_who\": "@,
                                    ) {
                                        None => None,
                                        Some(r9) => match p_opt_str(r9) {
                                            None => None,
                                            Some((from_who, r10)) => match p_lit(
                                                r10,
                                                ",\n    \"user\": \""@,
                                            ) {
                                                None => None,
                                                Some(r11) => match p_string_body(r11) {
                                                    None => None,
                                                    Some((user, r12)) => p_quote_tail(
                                                        r12,
                                                        uuid,
                                                        hitokoto,
                                                        hitokoto_type,
                                                        from,
                                                        from_who,
                                                        user,
                                                    ),
                                                },
                                            },
                                        },
                                    },
                                },
                            },
                        },
                    },
                },
            },
        },
    }
}

/// Consumes the numeric tail of a hitokoto record.
pub open spec fn p_quote_tail(
    rem: Seq<char>,
    uuid: Seq<char>,
    hitokoto: Seq<char>,
    hitokoto_type: Seq<char>,
    from: Seq<char>,
    from_who: Option<Seq<char>>,
    user: Seq<char>,
) -> Option<(HitokotoView, Seq<char>)> {
    match p_lit(rem, ",\n    \"user_id\": "@) {
        None => None,
        Some(r13) => match p_u32(r13) {
            None => None,
            Some((user_id, r14)) => match p_lit(r14, ",\n    \"created_at\": "@) {
                None => None,
                Some(r15) => match p_u64(r15) {
                    None => None,
                    Some((created_at, r16)) => match p_lit(r16, ",\n    \"length\": "@) {
                        None => None,
                        Some(r17) => match p_u32(r17) {
                            None => None,
                            Some((length, r18)) => match p_lit(r18, "\n  }"@) {
                                None => None,
                                Some(r19) => Some(
                                    (
                                        HitokotoView {
                                            uuid,
                                            hitokoto,
                                            hitokoto_type,
                                            from,
                                            from_who,
                                            user,
                                            user_id,
                                            created_at,
                                            length,
                                        },
                                        r19,
                                    ),
                                ),
                            },
                        },
                    },
                },
            },
        },
    }
}

/// A written hitokoto record parses back to itself.
#[verifier::rlimit(100)]
pub proof fn lemma_p_quote_enc(v: HitokotoView, rest: Seq<char>)
    ensures
        p_quote(enc_quote(v) + rest) == Some((v, rest)),
{
    reveal_strlit("{\n    \"uuid\": \"");
    reveal_strlit(",\n    \"hitokoto\": \"");
    reveal_strlit(",\n    \"type\": \"");
    reveal_strlit(",\n    \"from\": \"");
    reveal_strlit(",\n    \"from_who\": ");
    reveal_strlit(",\n    \"user\": \"");
    reveal_strlit(",\n    \"user_id\": ");
    reveal_strlit(",\n    \"created_at\": ");
    reveal_strlit(",\n    \"length\": ");
    reveal_strlit("\n  }");

    let s_end = "\n  }"@ + rest;
    let s9 = dec_digits(v.length as nat) + s_end;
    let s9l = ",\n    \"length\": "@ + s9;
    let s8 = dec_digits(v.created_at as nat) + s9l;
    let s8l = ",\n    \"created_at\": "@ + s8;
    let s7 = dec_digits(v.user_id as nat) + s8l;
    let s7l = ",\n    \"user_id\": "@ + s7;
    let s6 = str_enc(v.user) + s7l;
    let s6l = ",\n    \"user\": \""@ + s6;
    let s5 = opt_str_enc(v.from_who) + s6l;
    let s5l = ",\n    \"from_who\": "@ + s5;
    let s4 = str_enc(v.from) + s5l;
    let s4l = ",\n    \"from\": \""@ + s4;
    let s3 = str_enc(v.hitokoto_type) + s4l;
    let s3l = ",\n    \"type\": \""@ + s3;
    let s2 = str_enc(v.hitokoto) + s3l;
    let s2l = ",\n    \"hitokoto\": \""@ + s2;
    let s1 = str_enc(v.uuid) + s2l;
    let s1l = "{\n    \"uuid\": \""@ + s1;

    assert(enc_quote(v) + rest =~= s1l);

    lemma_p_lit_exact("{\n    \"uuid\": \""@, s1);
    lemma_p_string_body_enc(v.uuid, s2l);
    lemma_p_lit_exact(",\n    \"hitokoto\": \""@, s2);
    lemma_p_string_body_enc(v.hitokoto, s3l);
    lemma_p_lit_exact(",\n    \"type\": \""@, s3);
    lemma_p_string_body_enc(v.hitokoto_type, s4l);
    lemma_p_lit_exact(",\n    \"from\": \""@, s4);
    lemma_p_string_body_enc(v.from, s5l);
    lemma_p_lit_exact(",\n    \"from_who\": "@, s5);
    lemma_p_opt_str_enc(v.from_who, s6l);
    lemma_p_lit_exact(",\n    \"user\": \""@, s6);
    lemma_p_string_body_enc(v.user, s7l);
    lemma_p_lit_exact(",\n    \"user_id\": "@, s7);
    assert(s8l[0] == ',');
    lemma_p_u32_enc(v.user_id, s8l);
    lemma_p_lit_exact(",\n    \"created_at\": "@, s8);
    assert(s9l[0] == ',');
    lemma_p_u64_enc(v.created_at, s9l);
    lemma_p_lit_exact(",\n    \"length\": "@, s9);
    assert(s_end[0] == '\n');
    lemma_p_u32_enc(v.length, s_end);
    lemma_p_lit_exact("\n  }"@, rest);

    assert(p_quote(s1l) == Some((v, rest)));
}

/// Appends one hitokoto record.
#[verifier::rlimit(100)]
pub fn push_quote(s: &mut String, q: &Hitokoto)
    ensures
        final(s)@ == old(s)@ + enc_quote(q@),
{
    let ghost s0 = s@;
    s.append("{\n    \"uuid\": \"");
    crate::json::push_str_enc(s, q.uuid.as_str());
    s.append(",\n    \"hitokoto\": \"");
    crate::json::push_str_enc(s, q.hitokoto.as_str());
    s.append(",\n    \"type\": \"");
    crate::json::push_str_enc(s, q.hitokoto_type.as_str());
    s.append(",\n    \"from\": \"");
    crate::json::push_str_enc(s, q.from.as_str());
    s.append(",\n    \"from_who\": ");
    crate::json::push_opt_str(s, &q.from_who);
    s.append(",\n    \"user\": \"");
    crate::json::push_str_enc(s, q.user.as_str());
    s.append(",\n    \"user_id\": ");
    push_dec_u64(s, q.user_id as u64);
    s.append(",\n    \"created_at\": ");
    push_dec_u64(s, q.created_at);
    s.append(",\n    \"length\": ");
    push_dec_u64(s, q.length as u64);
    s.append("\n  }");
    proof {
        assert(s@ =~= s0 + enc_quote(q@));
    }
}

/// Consumes one hitokoto record at the cursor.
pub fn parse_quote_at(s: &str, pos: &mut usize) -> (r: Option<Hitokoto>)
    requires
        *old(pos) <= s@.len(),
    ensures
        r matches Some(q) ==> *old(pos) < *final(pos) <= s@.len() && p_quote(
            s@.skip(*old(pos) as int),
        ) == Some((q@, s@.skip(*final(pos) as int))),
        r is None ==> p_quote(s@.skip(*old(pos) as int)) is None,
{
    let ghost i0 = *pos as int;
    if !crate::json::eat_lit(s, pos, "{\n    \"uuid\": \"") {
        return None;
    }
    let uuid = match crate::json::parse_string_at(s, pos) {
        Some(v) => v,
        None => {
            return None;
        },
    };
    if !crate::json::eat_lit(s, pos, ",\n    \"hitokoto\": \"") {
        return None;
    }
    let hitokoto = match crate::json::parse_string_at(s, pos) {
        Some(v) => v,
        None => {
            return None;
        },
    };
    if !crate::json::eat_lit(s, pos, ",\n    \"type\": \"") {
        return None;
    }
    let hitokoto_type = match crate::json::parse_string_at(s, pos) {
        Some(v) => v,
        None => {
            return None;
        },
    };
    if !crate::json::eat_lit(s, pos, ",\n    \"from\": \"") {
        return None;
    }
    let from = match crate::json::parse_string_at(s, pos) {
        Some(v) => v,
        None => {
            return None;
        },
    };
    if !crate::json::eat_lit(s, pos, ",\n    \"from_who\": ") {
        return None;
    }
    let from_who = match crate::json::parse_opt_str_at(s, pos) {
        Some(v) => v,
        None => {
            return None;
        },
    };
    if !crate::json::eat_lit(s, pos, ",\n    \"user\": \"") {
        return None;
    }
    let user = match crate::json::parse_string_at(s, pos) {
        Some(v) => v,
        None => {
            return None;
        },
    };
    if !crate::json::eat_lit(s, pos, ",\n    \"user_id\": ") {
        return None;
    }
    let user_id = match crate::json::parse_u32_at(s, pos) {
        Some(v) => v,
        None => {
            return None;
        },
    };
    if !crate::json::eat_lit(s, pos, ",\n    \"created_at\": ") {
        return None;
    }
    let created_at = match crate::json::parse_u64_at(s, pos) {
        Some(v) => v,
        None => {
            return None;
        },
    };
    if !crate::json::eat_lit(s, pos, ",\n    \"length\": ") {
        return None;
    }
    let length = match crate::json::parse_u32_at(s, pos) {
        Some(v) => v,
        None => {
            return None;
        },
    };
    if !crate::json::eat_lit(s, pos, "\n  }") {
        return None;
    }
    let q = Hitokoto {
        uuid,
        hitokoto,
        hitokoto_type,
        from,
        from_who,
        user,
        user_id,
        created_at,
        length,
    };
    proof {
        assert(q.from_who.deep_view() == q@.from_who);
        assert(p_quote(s@.skip(i0)) == Some((q@, s@.skip(*pos as int))));
    }
    Some(q)
}

/// One user record as written.
pub open spec fn enc_user(v: UserView) -> Seq<char> {
    "{\n    \"user_id\": "@ + dec_digits(v.user_id as nat) + ",\n    \"username\": \""@ + str_enc(
        v.username,
    ) + ",\n    \"hitokotos\": "@ + enc_str_list(v.hitokotos) + ",\n    \"collections\": "@
        + enc_str_list(v.collections) + "\n  }"@
}

/// Consumes one user record.
pub open spec fn p_user(rem: Seq<char>) -> Option<(UserView, Seq<char>)> {
    match p_lit(rem, "{\n    \"user_id\": "@) {
        None => None,
        Some(r1) => match p_u32(r1) {
            None => None,
            Some((user_id, r2)) => match p_lit(r2, ",\n    \"username\": \""@) {
                None => None,
                Some(r3) => match p_string_body(r3) {
                    None => None,
                    Some((username, r4)) => match p_lit(r4, ",\n    \"hitokotos\": "@) {
                        None => None,
                        Some(r5) => match p_str_list(r5) {
                            None => None,
                            Some((hitokotos, r6)) => match p_lit(r6, ",\n    \"collections\": "@) {
                                None => None,
                                Some(r7) => match p_str_list(r7) {
                                    None => None,
                                    Some((collections, r8)) => match p_lit(r8, "\n  }"@) {
                                        None => None,
                                        Some(r9) => Some(
                                            (
                                                UserView {
                                                    user_id,
                                                    username,
                                                    hitokotos,
                                                    collections,
                                                },
                                                r9,
                                            ),
                                        ),
                                    },
                                },
                            },
                        },
                    },
                },
            },
        },
    }
}

/// A written user record parses back to itself.
#[verifier::rlimit(100)]
pub proof fn lemma_p_user_enc(v: UserView, rest: Seq<char>)
    ensures
        p_user(enc_user(v) + rest) == Some((v, rest)),
{
    reveal_strlit("{\n    \"user_id\": ");
    reveal_strlit(",\n    \"username\": \"");
    reveal_strlit(",\n    \"hitokotos\": ");
    reveal_strlit(",\n    \"collections\": ");
    reveal_strlit("\n  }");

    let s_end = "\n  }"@ + rest;
    let s4 = enc_str_list(v.collections) + s_end;
    let s4l = ",\n    \"collections\": "@ + s4;
    let s3 = enc_str_list(v.hitokotos) + s4l;
    let s3l = ",\n    \"hitokotos\": "@ + s3;
    let s2 = str_enc(v.username) + s3l;
    let s2l = ",\n    \"username\": \""@ + s2;
    let s1 = dec_digits(v.user_id as nat) + s2l;
    let s1l = "{\n    \"user_id\": "@ + s1;

    assert(enc_user(v) + rest =~= s1l);

    lemma_p_lit_exact("{\n    \"user_id\": "@, s1);
    assert(s2l[0] == ',');
    lemma_p_u32_enc(v.user_id, s2l);
    lemma_p_lit_exact(",\n    \"username\": \""@, s2);
    lemma_p_string_body_enc(v.username, s3l);
    lemma_p_lit_exact(",\n    \"hitokotos\": "@, s3);
    lemma_p_str_list_enc(v.hitokotos, s4l);
    lemma_p_lit_exact(",\n    \"collections\": "@, s4);
    lemma_p_str_list_enc(v.collections, s_end);
    lemma_p_lit_exact("\n  }"@, rest);

    assert(p_user(s1l) == Some((v, rest)));
}

/// Appends one user record.
#[verifier::rlimit(100)]
pub fn push_user(s: &mut String, u: &User)
    ensures
        final(s)@ == old(s)@ + enc_user(u@),
{
    let ghost s0 = s@;
    s.append("{\n    \"user_id\": ");
    push_dec_u64(s, u.user_id as u64);
    s.append(",\n    \"username\": \"");
    crate::json::push_str_enc(s, u.username.as_str());
    s.append(",\n    \"hitokotos\": ");
    push_str_list(s, &u.hitokotos);
    s.append(",\n    \"collections\": ");
    push_str_list(s, &u.collections);
    s.append("\n  }");
    proof {
        assert(s@ =~= s0 + enc_user(u@));
    }
}

/// Consumes one user record at the cursor.
pub fn parse_user_at(s: &str, pos: &mut usize) -> (r: Option<User>)
    requires
        *old(pos) <= s@.len(),
    ensures
        r matches Some(u) ==> *old(pos) < *final(pos) <= s@.len() && p_user(
            s@.skip(*old(pos) as int),
        ) == Some((u@, s@.skip(*final(pos) as int))),
        r is None ==> p_user(s@.skip(*old(pos) as int)) is None,
{
    let ghost i0 = *pos as int;
    if !crate::json::eat_lit(s, pos, "{\n    \"user_id\": ") {
        return None;
    }
    let user_id = match crate::json::parse_u32_at(s, pos) {
        Some(v) => v,
        None => {
            return None;
        },
    };
    if !crate::json::eat_lit(s, pos, ",\n    \"username\": \"") {
        return None;
    }
    let username = match crate::json::parse_string_at(s, pos) {
        Some(v) => v,
        None => {
            return None;
        },
    };
    if !crate::json::eat_lit(s, pos, ",\n    \"hitokotos\": ") {
        return None;
    }
    let hitokotos = match parse_str_list_at(s, pos) {
        Some(v) => v,
        None => {
            return None;
        },
    };
    if !crate::json::eat_lit(s, pos, ",\n    \"collections\": ") {
        return None;
    }
    let collections = match parse_str_list_at(s, pos) {
        Some(v) => v,
        None => {
            return None;
        },
    };
    if !crate::json::eat_lit(s, pos, "\n  }") {
        return None;
    }
    let u = User { user_id, username, hitokotos, collections };
    proof {
        assert(p_user(s@.skip(i0)) == Some((u@, s@.skip(*pos as int))));
    }
    Some(u)
}

/// One collection record as written.
pub open spec fn enc_collection(v: CollectionView) -> Seq<char> {
    "{\n    \"collection_uuid\": \""@ + str_enc(v.collection_uuid) + ",\n    \"title\": \""@
        + str_enc(v.title) + ",\n    \"description\": "@ + opt_str_enc(v.description)
        + ",\n    \"user_id\": "@ + dec_digits(v.user_id as nat) + ",\n    \"hitokoto_uuids\": "@
        + enc_str_list(v.hitokoto_uuids) + ",\n    \"created_at\": "@ + dec_digits(
        v.created_at as nat,
    ) + "\n  }"@
}

/// Consumes one collection record.
pub open spec fn p_collection(rem: Seq<char>) -> Option<(CollectionView, Seq<char>)> {
    match p_lit(rem, "{\n    \"collection_uuid\": \""@) {
        None => None,
        Some(r1) => match p_string_body(r1) {
            None => None,
            Some((collection_uuid, r2)) => match p_lit(r2, ",\n    \"title\": \""@) {
                None => None,
                Some(r3) => match p_string_body(r3) {
                    None => None,
                    Some((title, r4)) => match p_lit(r4, ",\n    \"description\": "@) {
                        None => None,
                        Some(r5) => match p_opt_str(r5) {
                            None => None,
                            Some((description, r6)) => match p_lit(r6, ",\n    \"user_id\": "@) {
                                None => None,
                                Some(r7) => match p_u32(r7) {
                                    None => None,
                                    Some((user_id, r8)) => match p_lit(
                                        r8,
                                        ",\n    \"hitokoto_uuids\": "@,
                                    ) {
                                        None => None,
                                        Some(r9) => match p_str_list(r9) {
                                            None => None,
                                            Some((hitokoto_uuids, r10)) => match p_lit(
                                                r10,
                                                ",\n    \"created_at\": "@,
                                            ) {
                                                None => None,
                                                Some(r11) => match p_u64(r11) {
                                                    None => None,
                                                    Some((created_at, r12)) => match p_lit(
                                                        r12,
                                                        "\n  }"@,
                                                    ) {
                                                        None => None,
                                                        Some(r13) => Some(
                                                            (
                                                                CollectionView {
                                                                    collection_uuid,
                                                                    title,
                                                                    description,
                                                                    user_id,
                                                                    hitokoto_uuids,
                                                                    created_at,
                                                                },
                                                                r13,
                                                            ),
                                                        ),
                                                    },
                                                },
                                            },
                                        },
                                    },
                                },
                            },
                        },
                    },
                },
            },
        },
    }
}

/// A written collection record parses back to itself.
#[verifier::rlimit(100)]
pub proof fn lemma_p_collection_enc(v: CollectionView, rest: Seq<char>)
    ensures
        p_collection(enc_collection(v) + rest) == Some((v, rest)),
{
    reveal_strlit("{\n    \"collection_uuid\": \"");
    reveal_strlit(",\n    \"title\": \"");
    reveal_strlit(",\n    \"description\": ");
    reveal_strlit(",\n    \"user_id\": ");
    reveal_strlit(",\n    \"hitokoto_uuids\": ");
    reveal_strlit(",\n    \"created_at\": ");
    reveal_strlit("\n  }");

    let s_end = "\n  }"@ + rest;
    let s6 = dec_digits(v.created_at as nat) + s_end;
    let s6l = ",\n    \"created_at\": "@ + s6;
    let s5 = enc_str_list(v.hitokoto_uuids) + s6l;
    let s5l = ",\n    \"hitokoto_uuids\": "@ + s5;
    let s4 = dec_digits(v.user_id as nat) + s5l;
    let s4l = ",\n    \"user_id\": "@ + s4;
    let s3 = opt_str_enc(v.description) + s4l;
    let s3l = ",\n    \"description\": "@ + s3;
    let s2 = str_enc(v.title) + s3l;
    let s2l = ",\n    \"title\": \""@ + s2;
    let s1 = str_enc(v.collection_uuid) + s2l;
    let s1l = "{\n    \"collection_uuid\": \""@ + s1;

    assert(enc_collection(v) + rest =~= s1l);

    lemma_p_lit_exact("{\n    \"collection_uuid\": \""@, s1);
    lemma_p_string_body_enc(v.collection_uuid, s2l);
    lemma_p_lit_exact(",\n    \"title\": \""@, s2);
    lemma_p_string_body_enc(v.title, s3l);
    lemma_p_lit_exact(",\n    \"description\": "@, s3);
    lemma_p_opt_str_enc(v.description, s4l);
    lemma_p_lit_exact(",\n    \"user_id\": "@, s4);
    assert(s5l[0] == ',');
    lemma_p_u32_enc(v.user_id, s5l);
    lemma_p_lit_exact(",\n    \"hitokoto_uuids\": "@, s5);
    lemma_p_str_list_enc(v.hitokoto_uuids, s6l);
    lemma_p_lit_exact(",\n    \"created_at\": "@, s6);
    assert(s_end[0] == '\n');
    lemma_p_u64_enc(v.created_at, s_end);
    lemma_p_lit_exact("\n  }"@, rest);

    assert(p_collection(s1l) == Some((v, rest)));
}

/// Appends one collection record.
#[verifier::rlimit(100)]
pub fn push_collection(s: &mut String, c: &Collection)
    ensures
        final(s)@ == old(s)@ + enc_collection(c@),
{
    let ghost s0 = s@;
    s.append("{\n    \"collection_uuid\": \"");
    crate::json::push_str_enc(s, c.collection_uuid.as_str());
    s.append(",\n    \"title\": \"");
    crate::json::push_str_enc(s, c.title.as_str());
    s.append(",\n    \"description\": ");
    crate::json::push_opt_str(s, &c.description);
    s.append(",\n    \"user_id\": ");
    push_dec_u64(s, c.user_id as u64);
    s.append(",\n    \"hitokoto_uuids\": ");
    push_str_list(s, &c.hitokoto_uuids);
    s.append(",\n    \"created_at\": ");
    push_dec_u64(s, c.created_at);
    s.append("\n  }");
    proof {
        assert(s@ =~= s0 + enc_collection(c@));
    }
}

/// Consumes one collection record at the cursor.
pub fn parse_collection_at(s: &str, pos: &mut usize) -> (r: Option<Collection>)
    requires
        *old(pos) <= s@.len(),
    ensures
        r matches Some(c) ==> *old(pos) < *final(pos) <= s@.len() && p_collection(
            s@.skip(*old(pos) as int),
        ) == Some((c@, s@.skip(*final(pos) as int))),
        r is None ==> p_collection(s@.skip(*old(pos) as int)) is None,
{
    let ghost i0 = *pos as int;
    if !crate::json::eat_lit(s, pos, "{\n    \"collection_uuid\": \"") {
        return None;
    }
    let collection_uuid = match crate::json::parse_string_at(s, pos) {
        Some(v) => v,
        None => {
            return None;
        },
    };
    if !crate::json::eat_lit(s, pos, ",\n    \"title\": \"") {
        return None;
    }
    let title = match crate::json::parse_string_at(s, pos) {
        Some(v) => v,
        None => {
            return None;
        },
    };
    if !crate::json::eat_lit(s, pos, ",\n    \"description\": ") {
        return None;
    }
    let description = match crate::json::parse_opt_str_at(s, pos) {
        Some(v) => v,
        None => {
            return None;
        },
    };
    if !crate::json::eat_lit(s, pos, ",\n    \"user_id\": ") {
        return None;
    }
    let user_id = match crate::json::parse_u32_at(s, pos) {
        Some(v) => v,
        None => {
            return None;
        },
    };
    if !crate::json::eat_lit(s, pos, ",\n    \"hitokoto_uuids\": ") {
        return None;
    }
    let hitokoto_uuids = match parse_str_list_at(s, pos) {
        Some(v) => v,
        None => {
            return None;
        },
    };
    if !crate::json::eat_lit(s, pos, ",\n    \"created_at\": ") {
        return None;
    }
    let created_at = match crate::json::parse_u64_at(s, pos) {
        Some(v) => v,
        None => {
            return None;
        },
    };
    if !crate::json::eat_lit(s, pos, "\n  }") {
        return None;
    }
    let c = Collection { collection_uuid, title, description, user_id, hitokoto_uuids, created_at };
    proof {
        assert(c.description.deep_view() == c@.description);
        assert(p_collection(s@.skip(i0)) == Some((c@, s@.skip(*pos as int))));
    }
    Some(c)
}

/// The encoder of one hitokoto record, as an array element.
pub open spec fn quote_enc_fn() -> spec_fn(HitokotoView) -> Seq<char> {
    |v: HitokotoView| enc_quote(v)
}

/// The parser of one hitokoto record, as an array element.
pub open spec fn quote_p_fn() -> spec_fn(Seq<char>) -> Option<(HitokotoView, Seq<char>)> {
    |r: Seq<char>| p_quote(r)
}

/// The hitokoto container as written: one pretty-printed array.
pub open spec fn enc_quotes(vs: Seq<HitokotoView>) -> Seq<char> {
    enc_array(vs, quote_enc_fn(), "[\n  "@, ",\n  "@, "\n]"@)
}

/// Consumes the hitokoto container's array.
pub open spec fn p_quotes(rem: Seq<char>) -> Option<(Seq<HitokotoView>, Seq<char>)> {
    p_array(rem, quote_p_fn(), "[\n  "@, ",\n  "@, "\n]"@)
}

/// What a hitokoto file's text decodes to: the array, with nothing
/// allowed to follow it.
pub open spec fn parse_quotes_text(t: Seq<char>) -> Option<Seq<HitokotoView>> {
    match p_quotes(t) {
        Some((vs, rest)) => if rest.len() == 0 {
            Some(vs)
        } else {
            None
        },
        None => None,
    }
}

/// Writing the hitokoto container and parsing the text back gives the
/// container's records, element for element.
pub proof fn lemma_quotes_round_trip(vs: Seq<HitokotoView>)
    ensures
        parse_quotes_text(enc_quotes(vs)) == Some(vs),
{
    reveal_strlit("[\n  ");
    reveal_strlit(",\n  ");
    reveal_strlit("\n]");
    assert forall|k: int, rr: Seq<char>| 0 <= k < vs.len() implies #[trigger] quote_p_fn()(
        quote_enc_fn()(vs[k]) + rr,
    ) == Some((vs[k], rr)) by {
        lemma_p_quote_enc(vs[k], rr);
    }
    lemma_p_array_enc(
        vs,
        quote_enc_fn(),
        quote_p_fn(),
        "[\n  "@,
        ",\n  "@,
        "\n]"@,
        Seq::<char>::empty(),
    );
    assert(enc_quotes(vs) + Seq::<char>::empty() =~= enc_quotes(vs));
}

/// The encoder of one user record, as an array element.
pub open spec fn user_enc_fn() -> spec_fn(UserView) -> Seq<char> {
    |v: UserView| enc_user(v)
}

/// The parser of one user record, as an array element.
pub open spec fn user_p_fn() -> spec_fn(Seq<char>) -> Option<(UserView, Seq<char>)> {
    |r: Seq<char>| p_user(r)
}

/// The user container as written: one pretty-printed array.
pub open spec fn enc_users(vs: Seq<UserView>) -> Seq<char> {
    enc_array(vs, user_enc_fn(), "[\n  "@, ",\n  "@, "\n]"@)
}

/// Consumes the user container's array.
pub open spec fn p_users(rem: Seq<char>) -> Option<(Seq<UserView>, Seq<char>)> {
    p_array(rem, user_p_fn(), "[\n  "@, ",\n  "@, "\n]"@)
}

/// What a user file's text decodes to.
pub open spec fn parse_users_text(t: Seq<char>) -> Option<Seq<UserView>> {
    match p_users(t) {
        Some((vs, rest)) => if rest.len() == 0 {
            Some(vs)
        } else {
            None
        },
        None => None,
    }
}

/// Writing the user container and parsing the text back gives the
/// container's records, element for element.
pub proof fn lemma_users_round_trip(vs: Seq<UserView>)
    ensures
        parse_users_text(enc_users(vs)) == Some(vs),
{
    reveal_strlit("[\n  ");
    reveal_strlit(",\n  ");
    reveal_strlit("\n]");
    assert forall|k: int, rr: Seq<char>| 0 <= k < vs.len() implies #[trigger] user_p_fn()(
        user_enc_fn()(vs[k]) + rr,
    ) == Some((vs[k], rr)) by {
        lemma_p_user_enc(vs[k], rr);
    }
    lemma_p_array_enc(
        vs,
        user_enc_fn(),
        user_p_fn(),
        "[\n  "@,
        ",\n  "@,
        "\n]"@,
        Seq::<char>::empty(),
    );
    assert(enc_users(vs) + Seq::<char>::empty() =~= enc_users(vs));
}

/// The encoder of one collection record, as an array element.
pub open spec fn collection_enc_fn() -> spec_fn(CollectionView) -> Seq<char> {
    |v: CollectionView| enc_collection(v)
}

/// The parser of one collection record, as an array element.
pub open spec fn collection_p_fn() -> spec_fn(Seq<char>) -> Option<(CollectionView, Seq<char>)> {
    |r: Seq<char>| p_collection(r)
}

/// The collection container as written: one pretty-printed array.
pub open spec fn enc_collections(vs: Seq<CollectionView>) -> Seq<char> {
    enc_array(vs, collection_enc_fn(), "[\n  "@, ",\n  "@, "\n]"@)
}

/// Consumes the collection container's array.
pub open spec fn p_collections(rem: Seq<char>) -> Option<(Seq<CollectionView>, Seq<char>)> {
    p_array(rem, collection_p_fn(), "[\n  "@, ",\n  "@, "\n]"@)
}

/// What a collection file's text decodes to.
pub open spec fn parse_collections_text(t: Seq<char>) -> Option<Seq<CollectionView>> {
    match p_collections(t) {
        Some((vs, rest)) => if rest.len() == 0 {
            Some(vs)
        } else {
            None
        },
        None => None,
    }
}

/// Writing the collection container and parsing the text back gives the
/// container's records, element for element.
pub proof fn lemma_collections_round_trip(vs: Seq<CollectionView>)
    ensures
        parse_collections_text(enc_collections(vs)) == Some(vs),
{
    reveal_strlit("[\n  ");
    reveal_strlit(",\n  ");
    reveal_strlit("\n]");
    assert forall|k: int, rr: Seq<char>| 0 <= k < vs.len() implies #[trigger] collection_p_fn()(
        collection_enc_fn()(vs[k]) + rr,
    ) == Some((vs[k], rr)) by {
        lemma_p_collection_enc(vs[k], rr);
    }
    lemma_p_array_enc(
        vs,
        collection_enc_fn(),
        collection_p_fn(),
        "[\n  "@,
        ",\n  "@,
        "\n]"@,
        Seq::<char>::empty(),
    );
    assert(enc_collections(vs) + Seq::<char>::empty() =~= enc_collections(vs));
}

/// The whole hitokoto container as one file's text.
pub fn hitokotos_to_json(data: &Vec<Hitokoto>) -> (r: String)
    ensures
        r@ == enc_quotes(data.deep_view()),
{
    let ghost dv = data.deep_view();
    let mut s = String::new();
    if data.len() == 0 {
        s.append("[]");
        proof {
            assert(s@ =~= enc_quotes(dv));
        }
        return s;
    }
    s.append("[\n  ");
    push_quote(&mut s, &data[0]);
    let mut k: usize = 1;
    while k < data.len()
        invariant
            1 <= k <= data@.len(),
            dv == data.deep_view(),
            dv.len() == data@.len(),
            s@ == "[\n  "@ + enc_quote(dv[0]) + enc_array_mid(
                dv.subrange(1, k as int),
                quote_enc_fn(),
                ",\n  "@,
            ),
        decreases data@.len() - k,
    {
        s.append(",\n  ");
        push_quote(&mut s, &data[k]);
        proof {
            lemma_enc_array_mid_append(
                dv.subrange(1, k as int),
                seq![dv[k as int]],
                quote_enc_fn(),
                ",\n  "@,
            );
            assert(seq![dv[k as int]].drop_first() =~= Seq::<HitokotoView>::empty());
            assert(enc_array_mid(Seq::<HitokotoView>::empty(), quote_enc_fn(), ",\n  "@)
                =~= Seq::<char>::empty());
            assert(enc_array_mid(seq![dv[k as int]], quote_enc_fn(), ",\n  "@) =~= ",\n  "@
                + enc_quote(dv[k as int]));
            assert(dv.subrange(1, k as int) + seq![dv[k as int]] =~= dv.subrange(1, k as int + 1));
            assert(s@ =~= "[\n  "@ + enc_quote(dv[0]) + enc_array_mid(
                dv.subrange(1, k as int + 1),
                quote_enc_fn(),
                ",\n  "@,
            ));
        }
        k += 1;
    }
    s.append("\n]");
    proof {
        assert(dv.subrange(1, dv.len() as int) =~= dv.drop_first());
        assert(s@ =~= enc_quotes(dv));
    }
    s
}

/// Decodes a hitokoto file's text; anything but the canonical array is
/// refused as a format error.
pub fn hitokotos_from_json(s: &str) -> (r: Result<Vec<Hitokoto>, AppError>)
    ensures
        r matches Ok(v) ==> parse_quotes_text(s@) == Some(v.deep_view()),
        r is Err ==> parse_quotes_text(s@) is None && (r matches Err(AppError::Json(m)) && m@
            == "数据文件格式错误"@),
{
    let n = s.unicode_len();
    let mut pos: usize = 0;
    proof {
        assert(s@.skip(0) =~= s@);
    }
    if crate::json::eat_lit(s, &mut pos, "[]") {
        if pos == n {
            let out: Vec<Hitokoto> = Vec::new();
            proof {
                assert(out.deep_view() =~= Seq::<HitokotoView>::empty());
                assert(s@.skip(pos as int).len() == 0);
            }
            return Ok(out);
        }
        proof {
            assert(s@.skip(pos as int).len() > 0);
        }
        return Err(AppError::Json("数据文件格式错误".to_owned()));
    }
    if !crate::json::eat_lit(s, &mut pos, "[\n  ") {
        return Err(AppError::Json("数据文件格式错误".to_owned()));
    }
    let first = match parse_quote_at(s, &mut pos) {
        Some(v) => v,
        None => {
            return Err(AppError::Json("数据文件格式错误".to_owned()));
        },
    };
    let mut out: Vec<Hitokoto> = Vec::new();
    out.push(first);
    proof {
        assert(out.deep_view() =~= seq![out@[0]@]);
    }
    loop
        invariant
            0 <= pos <= s@.len(),
            n == s@.len(),
            p_quotes(s@) == p_array_rest(
                s@.skip(pos as int),
                quote_p_fn(),
                ",\n  "@,
                "\n]"@,
                out.deep_view(),
            ),
        decreases s@.len() - pos,
    {
        let ghost posq = pos as int;
        let ghost outq = out.deep_view();
        if crate::json::eat_lit(s, &mut pos, "\n]") {
            proof {
                assert(p_quotes(s@) == Some((outq, s@.skip(pos as int))));
            }
            if pos == n {
                proof {
                    assert(s@.skip(pos as int).len() == 0);
                }
                return Ok(out);
            }
            proof {
                assert(s@.skip(pos as int).len() > 0);
            }
            return Err(AppError::Json("数据文件格式错误".to_owned()));
        }
        if !crate::json::eat_lit(s, &mut pos, ",\n  ") {
            proof {
                assert(p_array_rest(s@.skip(posq), quote_p_fn(), ",\n  "@, "\n]"@, outq) is None);
            }
            return Err(AppError::Json("数据文件格式错误".to_owned()));
        }
        let ghost pos1 = pos as int;
        match parse_quote_at(s, &mut pos) {
            Some(q) => {
                let ghost pos2 = pos as int;
                let ghost qv = q@;
                out.push(q);
                proof {
                    assert(out.deep_view() =~= outq.push(qv));
                    assert(quote_p_fn()(s@.skip(pos1)) == Some((qv, s@.skip(pos2))));
                    assert(s@.skip(pos2).len() < s@.skip(posq).len());
                    assert(p_array_rest(s@.skip(posq), quote_p_fn(), ",\n  "@, "\n]"@, outq)
                        == p_array_rest(
                        s@.skip(pos2),
                        quote_p_fn(),
                        ",\n  "@,
                        "\n]"@,
                        outq.push(qv),
                    ));
                }
            },
            None => {
                proof {
                    assert(quote_p_fn()(s@.skip(pos1)) is None);
                    assert(p_array_rest(
                        s@.skip(posq),
                        quote_p_fn(),
                        ",\n  "@,
                        "\n]"@,
                        outq,
                    ) is None);
                }
                return Err(AppError::Json("数据文件格式错误".to_owned()));
            },
        }
    }
}

/// The whole user container as one file's text.
pub fn users_to_json(data: &Vec<User>) -> (r: String)
    ensures
        r@ == enc_users(data.deep_view()),
{
    let ghost dv = data.deep_view();
    let mut s = String::new();
    if data.len() == 0 {
        s.append("[]");
        proof {
            assert(s@ =~= enc_users(dv));
        }
        return s;
    }
    s.append("[\n  ");
    push_user(&mut s, &data[0]);
    let mut k: usize = 1;
    while k < data.len()
        invariant
            1 <= k <= data@.len(),
            dv == data.deep_view(),
            dv.len() == data@.len(),
            s@ == "[\n  "@ + enc_user(dv[0]) + enc_array_mid(
                dv.subrange(1, k as int),
                user_enc_fn(),
                ",\n  "@,
            ),
        decreases data@.len() - k,
    {
        s.append(",\n  ");
        push_user(&mut s, &data[k]);
        proof {
            lemma_enc_array_mid_append(
                dv.subrange(1, k as int),
                seq![dv[k as int]],
                user_enc_fn(),
                ",\n  "@,
            );
            assert(seq![dv[k as int]].drop_first() =~= Seq::<UserView>::empty());
            assert(enc_array_mid(Seq::<UserView>::empty(), user_enc_fn(), ",\n  "@)
                =~= Seq::<char>::empty());
            assert(enc_array_mid(seq![dv[k as int]], user_enc_fn(), ",\n  "@) =~= ",\n  "@
                + enc_user(dv[k as int]));
            assert(dv.subrange(1, k as int) + seq![dv[k as int]] =~= dv.subrange(1, k as int + 1));
            assert(s@ =~= "[\n  "@ + enc_user(dv[0]) + enc_array_mid(
                dv.subrange(1, k as int + 1),
                user_enc_fn(),
                ",\n  "@,
            ));
        }
        k += 1;
    }
    s.append("\n]");
    proof {
        assert(dv.subrange(1, dv.len() as int) =~= dv.drop_first());
        assert(s@ =~= enc_users(dv));
    }
    s
}

/// Decodes a user file's text; anything but the canonical array is
/// refused as a format error.
pub fn users_from_json(s: &str) -> (r: Result<Vec<User>, AppError>)
    ensures
        r matches Ok(v) ==> parse_users_text(s@) == Some(v.deep_view()),
        r is Err ==> parse_users_text(s@) is None && (r matches Err(AppError::Json(m)) && m@
            == "用户数据文件格式错误"@),
{
    let n = s.unicode_len();
    let mut pos: usize = 0;
    proof {
        assert(s@.skip(0) =~= s@);
    }
    if crate::json::eat_lit(s, &mut pos, "[]") {
        if pos == n {
            let out: Vec<User> = Vec::new();
            proof {
                assert(out.deep_view() =~= Seq::<UserView>::empty());
                assert(s@.skip(pos as int).len() == 0);
            }
            return Ok(out);
        }
        proof {
            assert(s@.skip(pos as int).len() > 0);
        }
        return Err(AppError::Json("用户数据文件格式错误".to_owned()));
    }
    if !crate::json::eat_lit(s, &mut pos, "[\n  ") {
        return Err(AppError::Json("用户数据文件格式错误".to_owned()));
    }
    let first = match parse_user_at(s, &mut pos) {
        Some(v) => v,
        None => {
            return Err(AppError::Json("用户数据文件格式错误".to_owned()));
        },
    };
    let mut out: Vec<User> = Vec::new();
    out.push(first);
    proof {
        assert(out.deep_view() =~= seq![out@[0]@]);
    }
    loop
        invariant
            0 <= pos <= s@.len(),
            n == s@.len(),
            p_users(s@) == p_array_rest(
                s@.skip(pos as int),
                user_p_fn(),
                ",\n  "@,
                "\n]"@,
                out.deep_view(),
            ),
        decreases s@.len() - pos,
    {
        let ghost posq = pos as int;
        let ghost outq = out.deep_view();
        if crate::json::eat_lit(s, &mut pos, "\n]") {
            proof {
                assert(p_users(s@) == Some((outq, s@.skip(pos as int))));
            }
            if pos == n {
                proof {
                    assert(s@.skip(pos as int).len() == 0);
                }
                return Ok(out);
            }
            proof {
                assert(s@.skip(pos as int).len() > 0);
            }
            return Err(AppError::Json("用户数据文件格式错误".to_owned()));
        }
        if !crate::json::eat_lit(s, &mut pos, ",\n  ") {
            proof {
                assert(p_array_rest(s@.skip(posq), user_p_fn(), ",\n  "@, "\n]"@, outq) is None);
            }
            return Err(AppError::Json("用户数据文件格式错误".to_owned()));
        }
        let ghost pos1 = pos as int;
        match parse_user_at(s, &mut pos) {
            Some(u) => {
                let ghost pos2 = pos as int;
                let ghost uv = u@;
                out.push(u);
                proof {
                    assert(out.deep_view() =~= outq.push(uv));
                    assert(user_p_fn()(s@.skip(pos1)) == Some((uv, s@.skip(pos2))));
                    assert(s@.skip(pos2).len() < s@.skip(posq).len());
                    assert(p_array_rest(s@.skip(posq), user_p_fn(), ",\n  "@, "\n]"@, outq)
                        == p_array_rest(
                        s@.skip(pos2),
                        user_p_fn(),
                        ",\n  "@,
                        "\n]"@,
                        outq.push(uv),
                    ));
                }
            },
            None => {
                proof {
                    assert(user_p_fn()(s@.skip(pos1)) is None);
                    assert(p_array_rest(
                        s@.skip(posq),
                        user_p_fn(),
                        ",\n  "@,
                        "\n]"@,
                        outq,
                    ) is None);
                }
                return Err(AppError::Json("用户数据文件格式错误".to_owned()));
            },
        }
    }
}

/// The whole collection container as one file's text.
pub fn collections_to_json(data: &Vec<Collection>) -> (r: String)
    ensures
        r@ == enc_collections(data.deep_view()),
{
    let ghost dv = data.deep_view();
    let mut s = String::new();
    if data.len() == 0 {
        s.append("[]");
        proof {
            assert(s@ =~= enc_collections(dv));
        }
        return s;
    }
    s.append("[\n  ");
    push_collection(&mut s, &data[0]);
    let mut k: usize = 1;
    while k < data.len()
        invariant
            1 <= k <= data@.len(),
            dv == data.deep_view(),
            dv.len() == data@.len(),
            s@ == "[\n  "@ + enc_collection(dv[0]) + enc_array_mid(
                dv.subrange(1, k as int),
                collection_enc_fn(),
                ",\n  "@,
            ),
        decreases data@.len() - k,
    {
        s.append(",\n  ");
        push_collection(&mut s, &data[k]);
        proof {
            lemma_enc_array_mid_append(
                dv.subrange(1, k as int),
                seq![dv[k as int]],
                collection_enc_fn(),
                ",\n  "@,
            );
            assert(seq![dv[k as int]].drop_first() =~= Seq::<CollectionView>::empty());
            assert(enc_array_mid(Seq::<CollectionView>::empty(), collection_enc_fn(), ",\n  "@)
                =~= Seq::<char>::empty());
            assert(enc_array_mid(seq![dv[k as int]], collection_enc_fn(), ",\n  "@) =~= ",\n  "@
                + enc_collection(dv[k as int]));
            assert(dv.subrange(1, k as int) + seq![dv[k as int]] =~= dv.subrange(1, k as int + 1));
            assert(s@ =~= "[\n  "@ + enc_collection(dv[0]) + enc_array_mid(
                dv.subrange(1, k as int + 1),
                collection_enc_fn(),
                ",\n  "@,
            ));
        }
        k += 1;
    }
    s.append("\n]");
    proof {
        assert(dv.subrange(1, dv.len() as int) =~= dv.drop_first());
        assert(s@ =~= enc_collections(dv));
    }
    s
}

/// Decodes a collection file's text; anything but the canonical array is
/// refused as a format error.
pub fn collections_from_json(s: &str) -> (r: Result<Vec<Collection>, AppError>)
    ensures
        r matches Ok(v) ==> parse_collections_text(s@) == Some(v.deep_view()),
        r is Err ==> parse_collections_text(s@) is None && (r matches Err(AppError::Json(m)) && m@
            == "文集数据文件格式错误"@),
{
    let n = s.unicode_len();
    let mut pos: usize = 0;
    proof {
        assert(s@.skip(0) =~= s@);
    }
    if crate::json::eat_lit(s, &mut pos, "[]") {
        if pos == n {
            let out: Vec<Collection> = Vec::new();
            proof {
                assert(out.deep_view() =~= Seq::<CollectionView>::empty());
                assert(s@.skip(pos as int).len() == 0);
            }
            return Ok(out);
        }
        proof {
            assert(s@.skip(pos as int).len() > 0);
        }
        return Err(AppError::Json("文集数据文件格式错误".to_owned()));
    }
    if !crate::json::eat_lit(s, &mut pos, "[\n  ") {
        return Err(AppError::Json("文集数据文件格式错误".to_owned()));
    }
    let first = match parse_collection_at(s, &mut pos) {
        Some(v) => v,
        None => {
            return Err(AppError::Json("文集数据文件格式错误".to_owned()));
        },
    };
    let mut out: Vec<Collection> = Vec::new();
    out.push(first);
    proof {
        assert(out.deep_view() =~= seq![out@[0]@]);
    }
    loop
        invariant
            0 <= pos <= s@.len(),
            n == s@.len(),
            p_collections(s@) == p_array_rest(
                s@.skip(pos as int),
                collection_p_fn(),
                ",\n  "@,
                "\n]"@,
                out.deep_view(),
            ),
        decreases s@.len() - pos,
    {
        let ghost posq = pos as int;
        let ghost outq = out.deep_view();
        if crate::json::eat_lit(s, &mut pos, "\n]") {
            proof {
                assert(p_collections(s@) == Some((outq, s@.skip(pos as int))));
            }
            if pos == n {
                proof {
                    assert(s@.skip(pos as int).len() == 0);
                }
                return Ok(out);
            }
            proof {
                assert(s@.skip(pos as int).len() > 0);
            }
            return Err(AppError::Json("文集数据文件格式错误".to_owned()));
        }
        if !crate::json::eat_lit(s, &mut pos, ",\n  ") {
            proof {
                assert(p_array_rest(s@.skip(posq), collection_p_fn(), ",\n  "@, "\n]"@, outq) is None);
            }
            return Err(AppError::Json("文集数据文件格式错误".to_owned()));
        }
        let ghost pos1 = pos as int;
        match parse_collection_at(s, &mut pos) {
            Some(c) => {
                let ghost pos2 = pos as int;
                let ghost cv = c@;
                out.push(c);
                proof {
                    assert(out.deep_view() =~= outq.push(cv));
                    assert(collection_p_fn()(s@.skip(pos1)) == Some((cv, s@.skip(pos2))));
                    assert(s@.skip(pos2).len() < s@.skip(posq).len());
                    assert(p_array_rest(s@.skip(posq), collection_p_fn(), ",\n  "@, "\n]"@, outq)
                        == p_array_rest(
                        s@.skip(pos2),
                        collection_p_fn(),
                        ",\n  "@,
                        "\n]"@,
                        outq.push(cv),
                    ));
                }
            },
            None => {
                proof {
                    assert(collection_p_fn()(s@.skip(pos1)) is None);
                    assert(p_array_rest(
                        s@.skip(posq),
                        collection_p_fn(),
                        ",\n  "@,
                        "\n]"@,
                        outq,
                    ) is None);
                }
                return Err(AppError::Json("文集数据文件格式错误".to_owned()));
            },
        }
    }
}

} // verus!
