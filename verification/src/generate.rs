//! The script generator: one forward pass over the command-table rows,
//! emitting shell statements in row order, aborting on the first failure.

use vstd::prelude::*;

use crate::command::CommandRowV;
use crate::command::check_commit_kind;
use crate::command::check_tag_kind;
use crate::command::is_commit_kind;
use crate::command::is_tag_kind;
use crate::command::parse_command_row;
use crate::command::spec_parse_row;
use crate::command::CommandRow;
use crate::errors::ErrV;
use crate::errors::GenerationError;
use crate::text::split_lines;
use crate::timestamp::format_timestamp;
use crate::timestamp::parse_timestamp;
use crate::timestamp::spec_format_timestamp;
use crate::timestamp::spec_parse_timestamp;
use crate::users::new_users;
use crate::users::spec_data_rows;
use crate::users::spec_lookup;
use crate::users::spec_new_users;
use crate::users::UserEntryV;
use crate::users::UserRegistry;

verus! {

/// The lines emitted for one commit row: clean-slate wipe, snapshot copy,
/// stage, and a commit with six forged identity/timestamp overrides.
pub open spec fn spec_commit_lines(
    input: Seq<char>,
    name: Seq<char>,
    mail: Seq<char>,
    date: Seq<char>,
    msg: Seq<char>,
) -> Seq<char> {
    "find . -not -path './.git*' -not -path '.' -print0 | xargs -0 rm -rf\n"@ + "cp -r "@ + input
        + "/. .\n"@ + "git add -A\n"@ + "GIT_COMMITTER_NAME=\""@ + name
        + "\" GIT_COMMITTER_EMAIL=\""@ + mail + "\" GIT_COMMITTER_DATE=\""@ + date
        + "\" GIT_AUTHOR_NAME=\""@ + name + "\" GIT_AUTHOR_EMAIL=\""@ + mail
        + "\" GIT_AUTHOR_DATE=\""@ + date + "\" git commit -m \""@ + msg + "\"\n"@
}

/// The line emitted for one tag row.
pub open spec fn spec_tag_line(name: Seq<char>) -> Seq<char> {
    "git tag "@ + name + "\n"@
}

/// The lines one parsed row (line number `idx`) contributes, or the error
/// that aborts the run: a commit row needs all four arguments, a parseable
/// timestamp and a known user key; a tag row needs its name argument; any
/// other kind is unknown.
pub open spec fn spec_row_lines(row: CommandRowV, entries: Seq<UserEntryV>, idx: int) -> Result<
    Seq<char>,
    ErrV,
> {
    if is_commit_kind(row.kind) {
        match row.arg1 {
            None => Err(ErrV::MissingField { row: idx, field: 1 }),
            Some(ts_text) => match spec_parse_timestamp(ts_text) {
                None => Err(ErrV::InvalidTimestamp { row: idx, text: ts_text }),
                Some(t) => match row.arg2 {
                    None => Err(ErrV::MissingField { row: idx, field: 2 }),
                    Some(key) => match spec_lookup(entries, key) {
                        None => Err(ErrV::UnknownUser { row: idx, key: key }),
                        Some(u) => match row.arg3 {
                            None => Err(ErrV::MissingField { row: idx, field: 3 }),
                            Some(input) => match row.arg4 {
                                None => Err(ErrV::MissingField { row: idx, field: 4 }),
                                Some(msg) => Ok(
                                    spec_commit_lines(
                                        input,
                                        u.name,
                                        u.mail,
                                        spec_format_timestamp(t),
                                        msg,
                                    ),
                                ),
                            },
                        },
                    },
                },
            },
        }
    } else if is_tag_kind(row.kind) {
        match row.arg4 {
            None => Err(ErrV::MissingField { row: idx, field: 4 }),
            Some(name) => Ok(spec_tag_line(name)),
        }
    } else {
        Err(ErrV::UnknownCommand { row: idx, kind: row.kind })
    }
}

/// What one raw table line (line number `idx`) contributes: parse, then
/// dispatch.
pub open spec fn spec_row_result(line: Seq<char>, entries: Seq<UserEntryV>, idx: int) -> Result<
    Seq<char>,
    ErrV,
> {
    match spec_parse_row(line, idx) {
        Err(e) => Err(e),
        Ok(row) => spec_row_lines(row, entries, idx),
    }
}

/// The concatenated contribution of the rows `rows`, the first of which has
/// line number `idx`; the first failing row aborts the whole run with its
/// error.
pub open spec fn spec_body(rows: Seq<Seq<char>>, entries: Seq<UserEntryV>, idx: int) -> Result<
    Seq<char>,
    ErrV,
> decreases rows.len(),
{
    if rows.len() == 0 {
        Ok(Seq::<char>::empty())
    } else {
        match spec_row_result(rows[0], entries, idx) {
            Err(e) => Err(e),
            Ok(block) => match spec_body(rows.drop_first(), entries, idx + 1) {
                Err(e) => Err(e),
                Ok(rest) => Ok(block + rest),
            },
        }
    }
}

/// The whole generation, as a pure function of the two table texts and the
/// advisory directory-existence flag: header lines, one block per command
/// row in table order, and the closing line; or the first error met, in
/// which case nothing is emitted.
pub open spec fn spec_csv2sh(cmd: Seq<char>, users: Seq<char>, out_dir_exists: bool) -> Result<
    Seq<char>,
    ErrV,
> {
    if out_dir_exists {
        Err(ErrV::PreconditionFailed)
    } else {
        match spec_new_users(users) {
            Err(e) => Err(e),
            Ok(entries) => match spec_body(spec_data_rows(cmd), entries, 1) {
                Err(e) => Err(e),
                Ok(body) => Ok("mkdir out\npushd out\ngit init\n"@ + body + "popd\n"@),
            },
        }
    }
}

/// The per-row blocks concatenated in table order, a failing row counted as
/// contributing nothing (meaningful when every row succeeds).
pub open spec fn spec_blocks(rows: Seq<Seq<char>>, entries: Seq<UserEntryV>, idx: int) -> Seq<char>
    decreases rows.len(),
{
    if rows.len() == 0 {
        Seq::<char>::empty()
    } else {
        (match spec_row_result(rows[0], entries, idx) {
            Ok(b) => b,
            Err(_) => Seq::<char>::empty(),
        }) + spec_blocks(rows.drop_first(), entries, idx + 1)
    }
}

/// Row order is kept: a successful run succeeds on every row, and its body
/// is exactly each row's block, concatenated in table order — commit and tag
/// rows interleave losslessly, nothing is reordered.
pub proof fn lemma_output_in_row_order(rows: Seq<Seq<char>>, entries: Seq<UserEntryV>, idx: int)
    requires
        spec_body(rows, entries, idx) is Ok,
    ensures
        forall|j: int| 0 <= j < rows.len() ==> spec_row_result(rows[j], entries, idx + j) is Ok,
        spec_body(rows, entries, idx) == Ok::<_, ErrV>(spec_blocks(rows, entries, idx)),
    decreases rows.len(),
{
    if rows.len() == 0 {
    } else {
        lemma_output_in_row_order(rows.drop_first(), entries, idx + 1);
        assert forall|j: int| 1 <= j < rows.len() implies spec_row_result(
            rows[j],
            entries,
            idx + j,
        ) is Ok by {
            assert(rows.drop_first()[j - 1] == rows[j]);
        }
    }
}

/// A failing row anywhere in the table fails the whole run: no prefix of a
/// script is ever returned.
pub proof fn lemma_no_partial_output(
    rows: Seq<Seq<char>>,
    entries: Seq<UserEntryV>,
    idx: int,
    j: int,
)
    requires
        0 <= j < rows.len(),
        spec_row_result(rows[j], entries, idx + j) is Err,
    ensures
        spec_body(rows, entries, idx) is Err,
    decreases rows.len(),
{
    if spec_row_result(rows[0], entries, idx) is Err {
    } else if j > 0 {
        assert(rows.drop_first()[j - 1] == rows[j]);
        lemma_no_partial_output(rows.drop_first(), entries, idx + 1, j - 1);
    }
}

/// The first failing row decides the error: when every row before `j`
/// succeeds and row `j` fails, the whole run fails with row `j`'s error —
/// an unknown command, a missing user key or any other fault aborts
/// generation with that very report, wherever in the table it stands.
pub proof fn lemma_first_error_aborts(
    rows: Seq<Seq<char>>,
    entries: Seq<UserEntryV>,
    idx: int,
    j: int,
)
    requires
        0 <= j < rows.len(),
        forall|k: int| 0 <= k < j ==> spec_row_result(rows[k], entries, idx + k) is Ok,
        spec_row_result(rows[j], entries, idx + j) is Err,
    ensures
        spec_body(rows, entries, idx) == Err::<Seq<char>, _>(
            spec_row_result(rows[j], entries, idx + j)->Err_0,
        ),
    decreases j,
{
    if j == 0 {
    } else {
        assert(spec_row_result(rows[0], entries, idx) is Ok);
        assert forall|k: int| 0 <= k < j - 1 implies spec_row_result(
            rows.drop_first()[k],
            entries,
            idx + 1 + k,
        ) is Ok by {
            assert(rows.drop_first()[k] == rows[k + 1]);
        }
        assert(rows.drop_first()[j - 1] == rows[j]);
        lemma_first_error_aborts(rows.drop_first(), entries, idx + 1, j - 1);
    }
}

/// Generation is a pure function of the two table texts and the advisory
/// flag: re-running it on the same inputs yields a byte-identical result.
pub proof fn lemma_generation_deterministic(
    r1: Result<Seq<char>, ErrV>,
    r2: Result<Seq<char>, ErrV>,
    cmd: Seq<char>,
    users: Seq<char>,
    out_dir_exists: bool,
)
    requires
        r1 == spec_csv2sh(cmd, users, out_dir_exists),
        r2 == spec_csv2sh(cmd, users, out_dir_exists),
    ensures
        r1 == r2,
{
}

/// Emit the lines for one parsed command row against the registry `reg`;
/// `idx` is the row's line number in its table, used in error reports.
pub fn generate_row(row: &CommandRow, reg: &UserRegistry, idx: usize) -> (r: Result<
    String,
    GenerationError,
>)
    ensures
        match r {
            Ok(s) => spec_row_lines(row@, reg@, idx as int) == Ok::<_, ErrV>(s@),
            Err(e) => spec_row_lines(row@, reg@, idx as int) == Err::<Seq<char>, _>(e@),
        },
{
    if check_commit_kind(row.kind.as_str()) {
        let ts_text = match &row.arg1 {
            Some(s) => s,
            None => {
                return Err(GenerationError::MissingField { row: idx, field: 1 });
            },
        };
        let t = match parse_timestamp(ts_text.as_str()) {
            Some(t) => t,
            None => {
                return Err(
                    GenerationError::InvalidTimestamp { row: idx, text: ts_text.clone() },
                );
            },
        };
        let key = match &row.arg2 {
            Some(s) => s,
            None => {
                return Err(GenerationError::MissingField { row: idx, field: 2 });
            },
        };
        let user = match reg.lookup(key) {
            Some(u) => u,
            None => {
                return Err(GenerationError::UnknownUser { row: idx, key: key.clone() });
            },
        };
        let input = match &row.arg3 {
            Some(s) => s,
            None => {
                return Err(GenerationError::MissingField { row: idx, field: 3 });
            },
        };
        let msg = match &row.arg4 {
            Some(s) => s,
            None => {
                return Err(GenerationError::MissingField { row: idx, field: 4 });
            },
        };
        let date = format_timestamp(&t);
        let mut s = String::new();
        s.append("find . -not -path './.git*' -not -path '.' -print0 | xargs -0 rm -rf\n");
        s.append("cp -r ");
        s.append(input.as_str());
        s.append("/. .\n");
        s.append("git add -A\n");
        s.append("GIT_COMMITTER_NAME=\"");
        s.append(user.name.as_str());
        s.append("\" GIT_COMMITTER_EMAIL=\"");
        s.append(user.mail.as_str());
        s.append("\" GIT_COMMITTER_DATE=\"");
        s.append(date.as_str());
        s.append("\" GIT_AUTHOR_NAME=\"");
        s.append(user.name.as_str());
        s.append("\" GIT_AUTHOR_EMAIL=\"");
        s.append(user.mail.as_str());
        s.append("\" GIT_AUTHOR_DATE=\"");
        s.append(date.as_str());
        s.append("\" git commit -m \"");
        s.append(msg.as_str());
        s.append("\"\n");
        proof {
            assert(s@ =~= spec_commit_lines(input@, user@.name, user@.mail, date@, msg@));
        }
        Ok(s)
    } else if check_tag_kind(row.kind.as_str()) {
        let name = match &row.arg4 {
            Some(s) => s,
            None => {
                return Err(GenerationError::MissingField { row: idx, field: 4 });
            },
        };
        let mut s = String::new();
        s.append("git tag ");
        s.append(name.as_str());
        s.append("\n");
        proof {
            assert(s@ =~= spec_tag_line(name@));
        }
        Ok(s)
    } else {
        Err(GenerationError::UnknownCommand { row: idx, kind: row.kind.clone() })
    }
}

/// Generate the replay script from the command table and the user table.
/// `out_dir_exists` is the caller's answer to the one precondition query
/// (whether the fixed output directory `out` already exists); generation
/// itself touches nothing outside its arguments. On success the script is
/// exactly the header lines, each row's lines in row order, and `popd`; on
/// any failure the first error is returned and no text at all.
pub fn csv2sh(command_csv: &str, users_csv: &str, out_dir_exists: bool) -> (r: Result<
    String,
    GenerationError,
>)
    ensures
        match r {
            Ok(s) => spec_csv2sh(command_csv@, users_csv@, out_dir_exists) == Ok::<_, ErrV>(s@),
            Err(e) => spec_csv2sh(command_csv@, users_csv@, out_dir_exists) == Err::<Seq<char>, _>(
                e@,
            ),
        },
{
    if out_dir_exists {
        return Err(GenerationError::PreconditionFailed);
    }
    let registry = match new_users(users_csv) {
        Ok(r) => r,
        Err(e) => {
            return Err(e);
        },
    };
    let lines = split_lines(command_csv);
    let ghost rows = spec_data_rows(command_csv@);
    let ghost entries = registry@;
    let mut sh = String::new();
    sh.append("mkdir out\npushd out\ngit init\n");
    let ghost mut built = Seq::<char>::empty();
    proof {
        assert(sh@ =~= "mkdir out\npushd out\ngit init\n"@ + built);
        assert(rows.skip(0) =~= rows);
        if lines.deep_view().len() > 0 {
            assert(rows =~= lines.deep_view().drop_first());
        }
    }
    let mut i: usize = 1;
    while i < lines.len()
        invariant
            !out_dir_exists,
            1 <= i,
            lines.len() == 0 ==> i == 1,
            lines.len() > 0 ==> i <= lines.len(),
            rows == spec_data_rows(command_csv@),
            entries == registry@,
            i - 1 <= rows.len(),
            rows.len() == (if lines.len() == 0 {
                0int
            } else {
                lines.len() - 1
            }),
            forall|j: int| 0 <= j < rows.len() ==> rows[j] == lines.deep_view()[j + 1],
            sh@ == "mkdir out\npushd out\ngit init\n"@ + built,
            spec_new_users(users_csv@) == Ok::<_, ErrV>(entries),
            match spec_body(rows.skip(i - 1), entries, i as int) {
                Ok(rest) => spec_body(rows, entries, 1) == Ok::<_, ErrV>(built + rest),
                Err(e) => spec_body(rows, entries, 1) == Err::<Seq<char>, _>(e),
            },
        decreases lines.len() - i,
    {
        proof {
            assert(rows.skip(i - 1).len() > 0);
            assert(rows.skip(i - 1)[0] == rows[i - 1]);
            assert(rows.skip(i - 1).drop_first() =~= rows.skip(i as int));
            assert(lines.deep_view()[i as int] == lines@[i as int]@);
            assert(rows[i - 1] == lines@[i as int]@);
        }
        let row = match parse_command_row(lines[i].as_str(), i) {
            Ok(r) => r,
            Err(e) => {
                return Err(e);
            },
        };
        let block = match generate_row(&row, &registry, i) {
            Ok(b) => b,
            Err(e) => {
                return Err(e);
            },
        };
        sh.append(block.as_str());
        proof {
            let built0 = built;
            built = built + block@;
            assert(sh@ =~= "mkdir out\npushd out\ngit init\n"@ + built);
            if spec_body(rows.skip(i as int), entries, i + 1) is Ok {
                let rest = spec_body(rows.skip(i as int), entries, i + 1)->Ok_0;
                assert((built0 + block@) + rest =~= built0 + (block@ + rest));
            }
        }
        i += 1;
    }
    proof {
        assert(rows.skip(i - 1) =~= Seq::<Seq<char>>::empty());
    }
    sh.append("popd\n");
    proof {
        assert(built + Seq::<char>::empty() =~= built);
        assert(sh@ =~= "mkdir out\npushd out\ngit init\n"@ + built + "popd\n"@);
    }
    Ok(sh)
}

} // verus!
