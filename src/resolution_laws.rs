//! What holds of every resolution.
use vstd::prelude::*;

use crate::resolver::{
    backward_char, compat_applies, compat_prefix, compat_tokens, compat_values, forward_char,
    forward_slashes, is_separator, is_stop, join_path, native_separators, native_tokens,
    native_values, resolved, stop_index_from, substitute, substitute_from, first_match_from,
    trim_trailing_separators, truncate_at_stop, HostEnv, HostOs,
};
use crate::text::{contains, decimal, digit_char, occurs_at};

verus! {

/// Resolution is deterministic: one template, title and host always give one path.
pub proof fn lemma_resolution_deterministic(
    t: Seq<char>,
    game_id: u32,
    env: HostEnv,
    prefix_present: bool,
    r1: Seq<char>,
    r2: Seq<char>,
)
    requires
        r1 == resolved(t, game_id, env, prefix_present),
        r2 == resolved(t, game_id, env, prefix_present),
    ensures
        r1 == r2,
{
}

/// Characters that open or close a token.
pub open spec fn is_mark(c: char) -> bool {
    c == '%' || c == '<' || c == '>'
}

/// A token: opened by `%` or `<`, closed by `%` or `>`, with no such mark between.
pub open spec fn well_delimited(tok: Seq<char>) -> bool {
    &&& tok.len() >= 2
    &&& (tok[0] == '%' || tok[0] == '<')
    &&& (tok.last() == '%' || tok.last() == '>')
    &&& forall|m: int| 0 < m < tok.len() - 1 ==> !is_mark(#[trigger] tok[m])
}

/// No character of `s` could open a token.
pub open spec fn free_of_marks(s: Seq<char>) -> bool {
    forall|m: int| 0 <= m < s.len() ==> #[trigger] s[m] != '%' && s[m] != '<'
}

/// The pieces written one after another.
pub open spec fn concat_pieces(ps: Seq<Seq<char>>) -> Seq<char>
    decreases ps.len(),
{
    if ps.len() == 0 {
        seq![]
    } else {
        ps[0] + concat_pieces(ps.drop_first())
    }
}

/// Each piece is one of the tokens `toks`, or text holding no `%` or `<` (such as `/` or
/// a directory name).
pub open spec fn tokens_and_text(ps: Seq<Seq<char>>, toks: Seq<Seq<char>>) -> bool {
    forall|n: int| 0 <= n < ps.len() ==> toks.contains(#[trigger] ps[n]) || free_of_marks(ps[n])
}

/// The tokens that the resolution of `t` recognizes.
pub open spec fn applicable_tokens(t: Seq<char>, env: HostEnv, prefix_present: bool) -> Seq<
    Seq<char>,
> {
    if compat_applies(t, env, prefix_present) {
        compat_tokens()
    } else {
        native_tokens(env.document_dir is Some)
    }
}

/// None of the host's directories holds a character that could open a token.
pub open spec fn host_free_of_marks(env: HostEnv) -> bool {
    &&& free_of_marks(env.data_local_dir@)
    &&& free_of_marks(env.config_dir@)
    &&& free_of_marks(env.home_dir@)
    &&& (env.document_dir matches Some(d) ==> free_of_marks(d@))
    &&& (env.steam_root matches Some(r) ==> free_of_marks(r@))
}

proof fn lemma_free_concat(a: Seq<char>, b: Seq<char>)
    requires
        free_of_marks(a),
        free_of_marks(b),
    ensures
        free_of_marks(a + b),
{
    assert forall|m: int| 0 <= m < (a + b).len() implies #[trigger] (a + b)[m] != '%' && (a
        + b)[m] != '<' by {
        if m < a.len() {
            assert((a + b)[m] == a[m]);
        } else {
            assert((a + b)[m] == b[m - a.len()]);
        }
    }
}

proof fn lemma_free_join(a: Seq<char>, b: Seq<char>)
    requires
        free_of_marks(a),
        free_of_marks(b),
    ensures
        free_of_marks(join_path(a, b)),
{
    lemma_free_concat(a, b);
    lemma_free_concat(a, seq!['/']);
    lemma_free_concat(a + seq!['/'], b);
}

proof fn lemma_free_decimal(n: nat)
    ensures
        free_of_marks(decimal(n)),
    decreases n,
{
    if n >= 10 {
        lemma_free_decimal(n / 10);
        lemma_free_concat(decimal(n / 10), seq![digit_char(n % 10)]);
        assert(decimal(n / 10).push(digit_char(n % 10)) =~= decimal(n / 10) + seq![
            digit_char(n % 10),
        ]);
    }
}

proof fn lemma_free_prefix(s: Seq<char>, n: int)
    requires
        free_of_marks(s),
        0 <= n <= s.len(),
    ensures
        free_of_marks(s.take(n)),
        free_of_marks(s.skip(n)),
{
    assert forall|m: int| 0 <= m < s.skip(n).len() implies #[trigger] s.skip(n)[m] != '%'
        && s.skip(n)[m] != '<' by {
        assert(s.skip(n)[m] == s[m + n]);
    }
}

proof fn lemma_free_trim(s: Seq<char>)
    requires
        free_of_marks(s),
    ensures
        free_of_marks(trim_trailing_separators(s)),
    decreases s.len(),
{
    if s.len() > 0 && is_separator(s.last()) {
        lemma_free_prefix(s, s.len() - 1);
        assert(s.drop_last() =~= s.take(s.len() - 1));
        lemma_free_trim(s.drop_last());
    }
}

/// The tokens of both tables are well delimited.
proof fn lemma_tokens_delimited()
    ensures
        forall|k: int| 0 <= k < 8 ==> well_delimited(#[trigger] native_tokens(true)[k]),
        forall|k: int| 0 <= k < 6 ==> well_delimited(#[trigger] native_tokens(false)[k]),
        forall|k: int| 0 <= k < 6 ==> well_delimited(#[trigger] compat_tokens()[k]),
{
    reveal_strlit("%LOCALAPPDATA%");
    reveal_strlit("%APPDATA%");
    reveal_strlit("%USERPROFILE%");
    reveal_strlit("<home>");
    reveal_strlit("<winAppData>");
    reveal_strlit("<winLocalAppData>");
    reveal_strlit("%DOCUMENTS%");
    reveal_strlit("<winDocuments>");
    assert(well_delimited("%LOCALAPPDATA%"@));
    assert(well_delimited("%APPDATA%"@));
    assert(well_delimited("%USERPROFILE%"@));
    assert(well_delimited("<home>"@));
    assert(well_delimited("<winAppData>"@));
    assert(well_delimited("<winLocalAppData>"@));
    assert(well_delimited("%DOCUMENTS%"@));
    assert(well_delimited("<winDocuments>"@));
}

/// Two well-delimited tokens that stand at one position are the same length.
proof fn lemma_same_position_same_token(s: Seq<char>, i: int, a: Seq<char>, b: Seq<char>)
    requires
        well_delimited(a),
        well_delimited(b),
        occurs_at(s, i, a),
        occurs_at(s, i, b),
    ensures
        a.len() == b.len(),
{
    if a.len() < b.len() {
        let m = a.len() - 1;
        assert(s.subrange(i, i + a.len())[m] == s[i + m]);
        assert(s.subrange(i, i + b.len())[m] == s[i + m]);
        assert(!is_mark(b[m]));
    } else if b.len() < a.len() {
        let m = b.len() - 1;
        assert(s.subrange(i, i + a.len())[m] == s[i + m]);
        assert(s.subrange(i, i + b.len())[m] == s[i + m]);
        assert(!is_mark(a[m]));
    }
}

/// Where token `j` stands at `i`, the first match from `k` on is a token that stands there.
proof fn lemma_first_match_found(s: Seq<char>, i: int, toks: Seq<Seq<char>>, j: int, k: int)
    requires
        0 <= k <= j < toks.len(),
        occurs_at(s, i, toks[j]),
    ensures
        k <= first_match_from(s, i, toks, k) <= j,
        occurs_at(s, i, toks[first_match_from(s, i, toks, k)]),
    decreases j - k,
{
    if !occurs_at(s, i, toks[k]) {
        lemma_first_match_found(s, i, toks, j, k + 1);
    }
}

/// No well-delimited token stands where the text holds neither `%` nor `<`.
proof fn lemma_no_match_at_text(s: Seq<char>, i: int, toks: Seq<Seq<char>>, k: int)
    requires
        0 <= i < s.len(),
        s[i] != '%' && s[i] != '<',
        0 <= k <= toks.len(),
        forall|j: int| 0 <= j < toks.len() ==> well_delimited(#[trigger] toks[j]),
    ensures
        first_match_from(s, i, toks, k) == -1,
    decreases toks.len() - k,
{
    if k < toks.len() {
        if occurs_at(s, i, toks[k]) {
            assert(s.subrange(i, i + toks[k].len())[0] == s[i]);
            assert(well_delimited(toks[k]));
        }
        lemma_no_match_at_text(s, i, toks, k + 1);
    }
}

/// Substituting a run of well-delimited tokens and text without marks, where the tokens'
/// values hold no marks either, leaves no mark.
proof fn lemma_substitute_pieces_free(
    s: Seq<char>,
    i: int,
    toks: Seq<Seq<char>>,
    vals: Seq<Seq<char>>,
    ps: Seq<Seq<char>>,
)
    requires
        0 <= i <= s.len(),
        toks.len() == vals.len(),
        forall|k: int| 0 <= k < toks.len() ==> well_delimited(#[trigger] toks[k]),
        forall|k: int| 0 <= k < vals.len() ==> free_of_marks(#[trigger] vals[k]),
        tokens_and_text(ps, toks),
        s.skip(i) == concat_pieces(ps),
    ensures
        free_of_marks(substitute_from(s, i, toks, vals)),
    decreases ps.len(), if ps.len() > 0 {
        ps[0].len()
    } else {
        0
    },
{
    if ps.len() == 0 {
        assert(s.skip(i).len() == 0);
    } else {
        let p0 = ps[0];
        let rest = concat_pieces(ps.drop_first());
        assert(s.skip(i) == p0 + rest);
        assert(tokens_and_text(ps.drop_first(), toks)) by {
            assert forall|n: int| 0 <= n < ps.drop_first().len() implies toks.contains(
                #[trigger] ps.drop_first()[n],
            ) || free_of_marks(ps.drop_first()[n]) by {
                assert(ps.drop_first()[n] == ps[n + 1]);
            }
        }
        if p0.len() == 0 {
            assert(p0 + rest =~= rest);
            lemma_substitute_pieces_free(s, i, toks, vals, ps.drop_first());
        } else if toks.contains(p0) {
            let j = choose|j: int| 0 <= j < toks.len() && toks[j] == p0;
            let tok = toks[j];
            assert(s.subrange(i, i + tok.len()) =~= s.skip(i).subrange(0, tok.len() as int));
            assert((tok + rest).subrange(0, tok.len() as int) =~= tok);
            assert(occurs_at(s, i, tok));
            lemma_first_match_found(s, i, toks, j, 0);
            let k = first_match_from(s, i, toks, 0);
            lemma_same_position_same_token(s, i, toks[k], tok);
            assert(s.skip(i + tok.len()) =~= (tok + rest).skip(tok.len() as int));
            assert((tok + rest).skip(tok.len() as int) =~= rest);
            lemma_substitute_pieces_free(s, i + tok.len(), toks, vals, ps.drop_first());
            lemma_free_concat(vals[k], substitute_from(s, i + tok.len(), toks, vals));
        } else {
            assert(free_of_marks(p0));
            assert(s[i] == s.skip(i)[0]);
            assert(s.skip(i)[0] == p0[0]);
            lemma_no_match_at_text(s, i, toks, 0);
            let ps2 = seq![p0.drop_first()] + ps.drop_first();
            assert(ps2.drop_first() =~= ps.drop_first());
            assert(concat_pieces(ps2) == p0.drop_first() + rest);
            assert(s.skip(i + 1) =~= s.skip(i).drop_first());
            assert((p0 + rest).drop_first() =~= p0.drop_first() + rest);
            assert(s.skip(i + 1) == p0.drop_first() + rest);
            assert(tokens_and_text(ps2, toks)) by {
                assert forall|n: int| 0 <= n < ps2.len() implies toks.contains(#[trigger] ps2[n])
                    || free_of_marks(ps2[n]) by {
                    if n == 0 {
                        lemma_free_prefix(p0, 1);
                        assert(p0.drop_first() =~= p0.skip(1));
                    } else {
                        assert(ps2[n] == ps[n]);
                    }
                }
            }
            lemma_substitute_pieces_free(s, i + 1, toks, vals, ps2);
            lemma_free_concat(seq![s[i]], substitute_from(s, i + 1, toks, vals));
        }
    }
}

proof fn lemma_free_literals()
    ensures
        free_of_marks("AppData"@),
        free_of_marks("Roaming"@),
        free_of_marks("Local"@),
        free_of_marks("steamapps/compatdata/"@),
        free_of_marks("/pfx/drive_c/users/steamuser"@),
{
    reveal_strlit("AppData");
    reveal_strlit("Roaming");
    reveal_strlit("Local");
    reveal_strlit("steamapps/compatdata/");
    reveal_strlit("/pfx/drive_c/users/steamuser");
}

/// A sequence free of marks holds no well-delimited token.
proof fn lemma_free_holds_no_token(r: Seq<char>, tok: Seq<char>)
    requires
        free_of_marks(r),
        well_delimited(tok),
    ensures
        !contains(r, tok),
{
    assert forall|i: int| !occurs_at(r, i, tok) by {
        if occurs_at(r, i, tok) {
            assert(r.subrange(i, i + tok.len())[0] == r[i]);
        }
    }
}

/// A template made of tokens that its resolution recognizes, joined by text without `%` or
/// `<` (such as `/`), resolves to a path in which no token text is left, provided the
/// host's directories hold no `%` or `<` themselves.
pub proof fn lemma_token_coverage(
    t: Seq<char>,
    pieces: Seq<Seq<char>>,
    game_id: u32,
    env: HostEnv,
    prefix_present: bool,
)
    requires
        tokens_and_text(pieces, applicable_tokens(t, env, prefix_present)),
        t == concat_pieces(pieces),
        host_free_of_marks(env),
    ensures
        free_of_marks(resolved(t, game_id, env, prefix_present)),
        forall|k: int|
            0 <= k < native_tokens(true).len() ==> !contains(
                resolved(t, game_id, env, prefix_present),
                #[trigger] native_tokens(true)[k],
            ),
        forall|k: int|
            0 <= k < compat_tokens().len() ==> !contains(
                resolved(t, game_id, env, prefix_present),
                #[trigger] compat_tokens()[k],
            ),
{
    lemma_tokens_delimited();
    assert(t.skip(0) =~= t);
    if compat_applies(t, env, prefix_present) {
        let root = env.steam_root->0@;
        lemma_free_literals();
        lemma_free_decimal(game_id as nat);
        lemma_free_concat("steamapps/compatdata/"@, decimal(game_id as nat));
        lemma_free_concat(
            "steamapps/compatdata/"@ + decimal(game_id as nat),
            "/pfx/drive_c/users/steamuser"@,
        );
        let p = compat_prefix(root, game_id);
        lemma_free_join(
            root,
            "steamapps/compatdata/"@ + decimal(game_id as nat) + "/pfx/drive_c/users/steamuser"@,
        );
        lemma_free_join(p, "AppData"@);
        lemma_free_join(join_path(p, "AppData"@), "Roaming"@);
        lemma_free_join(join_path(p, "AppData"@), "Local"@);
        let vals = compat_values(p);
        assert forall|k: int| 0 <= k < vals.len() implies free_of_marks(#[trigger] vals[k]) by {}
        lemma_substitute_pieces_free(t, 0, compat_tokens(), vals, pieces);
        let sub = substitute(t, compat_tokens(), vals);
        let fw = forward_slashes(sub);
        assert(free_of_marks(fw)) by {
            assert forall|m: int| 0 <= m < fw.len() implies #[trigger] fw[m] != '%' && fw[m]
                != '<' by {
                assert(fw[m] == forward_char(sub[m]));
            }
        }
        if fw.len() >= 2 {
            lemma_free_prefix(fw, 2);
        }
    } else {
        let toks = native_tokens(env.document_dir is Some);
        let vals = native_values(env);
        assert forall|k: int| 0 <= k < vals.len() implies free_of_marks(#[trigger] vals[k]) by {}
        assert forall|k: int| 0 <= k < toks.len() implies well_delimited(#[trigger] toks[k]) by {
            if env.document_dir is Some {
                assert(toks[k] == native_tokens(true)[k]);
            } else {
                assert(toks[k] == native_tokens(false)[k]);
            }
        }
        lemma_substitute_pieces_free(t, 0, toks, vals, pieces);
        let sub = substitute(t, toks, vals);
        let cut = truncate_at_stop(sub);
        lemma_stop_index_bounds(sub, 0);
        lemma_free_prefix(sub, stop_index_from(sub, 0));
        let sep = native_separators(cut, env.os);
        assert(free_of_marks(sep)) by {
            assert forall|m: int| 0 <= m < sep.len() implies #[trigger] sep[m] != '%' && sep[m]
                != '<' by {
                if env.os == HostOs::Windows {
                    assert(sep[m] == backward_char(cut[m]));
                } else {
                    assert(sep[m] == forward_char(cut[m]));
                }
            }
        }
        lemma_free_trim(sep);
    }
    let r = resolved(t, game_id, env, prefix_present);
    assert forall|k: int| 0 <= k < native_tokens(true).len() implies !contains(
        r,
        #[trigger] native_tokens(true)[k],
    ) by {
        lemma_free_holds_no_token(r, native_tokens(true)[k]);
    }
    assert forall|k: int| 0 <= k < compat_tokens().len() implies !contains(
        r,
        #[trigger] compat_tokens()[k],
    ) by {
        lemma_free_holds_no_token(r, compat_tokens()[k]);
    }
}

proof fn lemma_stop_index_bounds(s: Seq<char>, i: int)
    requires
        0 <= i <= s.len(),
    ensures
        i <= stop_index_from(s, i) <= s.len(),
    decreases s.len() - i,
{
    if i < s.len() && !is_stop(s[i]) {
        lemma_stop_index_bounds(s, i + 1);
    }
}

} // verus!
