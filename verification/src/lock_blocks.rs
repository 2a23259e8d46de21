//! A `Cargo.lock` file seen as what it is written as: some text without a
//! table, then `[[package]]` blocks, each with its name and version lines,
//! an optional source line, a checksum line for registry packages, and the
//! rest of the block (its dependencies, or the `replace` line of a replaced
//! package). Parsing such a file yields one entry per block that is not
//! replaced, in the order of the file.

use vstd::prelude::*;

use crate::cargo_lock::{
    CursorPosition, LockField, SpecLockError, SpecPackageEntry, SpecPackageSource, SpecStep, checksum_prefix,
    empty_entry, name_prefix, quote, source_prefix, spec_entries_from, spec_initial_state, spec_lock_file,
    spec_package_source, spec_run, spec_step, table_start, version_prefix, with_field,
};
use crate::text::{find_from, is_first_occurrence, lemma_find_from_is, lemma_occurs_single, occurs_at};

verus! {

/// A `[[package]]` block as it is written.
pub struct LockBlock {
    pub name: Seq<char>,
    pub version: Seq<char>,
    /// The value of the `source` line, if the block has one.
    pub source: Option<Seq<char>>,
    /// The value of the `checksum` line, if the block has one.
    pub checksum: Option<Seq<char>>,
    /// What follows the newline after the last of these lines.
    pub rest: Seq<char>,
}

/// A quoted line: the text up to the opening quote, the value, and the
/// closing quote.
pub open spec fn quoted(prefix: Seq<char>, value: Seq<char>) -> Seq<char> {
    prefix + value + quote()
}

/// The source line of a block, if it has one.
pub open spec fn source_line(b: LockBlock) -> Seq<char> {
    match b.source {
        Some(s) => quoted(source_prefix(), s),
        None => Seq::empty(),
    }
}

/// The checksum line of a block, if it has one.
pub open spec fn checksum_line(b: LockBlock) -> Seq<char> {
    match b.checksum {
        Some(c) => quoted(checksum_prefix(), c),
        None => Seq::empty(),
    }
}

/// The text of a block from its end of checksum (or of the last line
/// before it) on: a newline, then the rest.
pub open spec fn block_tail(b: LockBlock) -> Seq<char> {
    seq!['\n'] + b.rest
}

/// The text of a block from the end of its version line on.
pub open spec fn after_version(b: LockBlock) -> Seq<char> {
    source_line(b) + (checksum_line(b) + block_tail(b))
}

/// The text of a block.
pub open spec fn block_text(b: LockBlock) -> Seq<char> {
    quoted(name_prefix(), b.name) + (quoted(version_prefix(), b.version) + after_version(b))
}

/// The text of blocks written one after the other.
pub open spec fn blocks_text(bs: Seq<LockBlock>) -> Seq<char>
    decreases bs.len(),
{
    if bs.len() == 0 {
        Seq::empty()
    } else {
        block_text(bs[0]) + blocks_text(bs.skip(1))
    }
}

/// The block is a replaced one: its rest starts with the `replace` line.
pub open spec fn is_replaced(b: LockBlock) -> bool {
    b.rest.len() > 0 && b.rest[0] == 'r'
}

/// The text holds no double quote.
pub open spec fn no_quote(s: Seq<char>) -> bool {
    forall|k: int| 0 <= k < s.len() ==> s[k] != '"'
}

/// The text holds no `[[`.
pub open spec fn no_table_start(s: Seq<char>) -> bool {
    forall|j: int| !occurs_at(s, j, table_start())
}

/// The source the block's source line describes, if it has one.
pub open spec fn block_source(b: LockBlock) -> Option<SpecPackageSource> {
    match b.source {
        Some(s) => match spec_package_source(s) {
            Ok(src) => Some(src),
            Err(_) => None,
        },
        None => None,
    }
}

/// The block is written as the parser reads it: its values hold no quote,
/// its source line describes a source, a block of a registry package has a
/// checksum unless it is replaced and no other block has one, and a block
/// without a source line does not go on with one.
pub open spec fn block_wf(b: LockBlock) -> bool {
    &&& no_quote(b.name)
    &&& no_quote(b.version)
    &&& (b.source matches Some(s) ==> no_quote(s) && spec_package_source(s) is Ok)
    &&& (b.checksum matches Some(c) ==> no_quote(c))
    &&& match block_source(b) {
        Some(SpecPackageSource::Registry(_)) => !is_replaced(b) ==> b.checksum is Some,
        _ => b.checksum is None,
    }
    &&& (b.source is None ==> !occurs_at(block_tail(b) + seq!['['], 0, source_prefix()))
}

/// The blocks are written as the parser reads them, and no `[[` starts in
/// the rest of a block, where the next block starts.
pub open spec fn blocks_wf(bs: Seq<LockBlock>) -> bool {
    &&& forall|i: int| 0 <= i < bs.len() ==> block_wf(#[trigger] bs[i])
    &&& forall|i: int| 0 <= i < bs.len() - 1 ==> no_table_start(#[trigger] bs[i].rest + seq!['['])
    &&& (bs.len() > 0 ==> no_table_start(bs.last().rest))
}

/// The entry of a block: its name, version and source, with the checksum
/// of a registry source.
pub open spec fn block_entry(b: LockBlock) -> SpecPackageEntry {
    let e = SpecPackageEntry { name: b.name, version: b.version, source: block_source(b) };
    match b.checksum {
        Some(c) => with_field(e, LockField::Checksum, c),
        None => e,
    }
}

/// The entries of the blocks that are not replaced, in order.
pub open spec fn unreplaced_entries(bs: Seq<LockBlock>) -> Seq<SpecPackageEntry>
    decreases bs.len(),
{
    if bs.len() == 0 {
        Seq::empty()
    } else if is_replaced(bs[0]) {
        unreplaced_entries(bs.skip(1))
    } else {
        seq![block_entry(bs[0])] + unreplaced_entries(bs.skip(1))
    }
}

/// The text of `t` from `o` on is `x`.
pub open spec fn text_from(t: Seq<char>, o: int, x: Seq<char>) -> bool {
    &&& 0 <= o <= t.len()
    &&& t.subrange(o, t.len() as int) == x
}

/// A character of the text from `o` on.
proof fn lemma_char_from(t: Seq<char>, o: int, x: Seq<char>, k: int)
    requires
        text_from(t, o, x),
        0 <= k < x.len(),
    ensures
        t[o + k] == x[k],
{
    assert(t.subrange(o, t.len() as int)[k] == t[o + k]);
}

/// A quoted field at `o`: its prefix occurs there, its closing quote is the
/// first one after the prefix, and the text goes on after it.
proof fn lemma_field(t: Seq<char>, o: int, prefix: Seq<char>, value: Seq<char>, z: Seq<char>)
    requires
        text_from(t, o, quoted(prefix, value) + z),
        no_quote(value),
    ensures
        occurs_at(t, o, prefix),
        find_from(t, o + prefix.len(), quote()) == Some(o + prefix.len() + value.len()),
        t.subrange(o + prefix.len(), o + prefix.len() + value.len()) == value,
        text_from(t, o + prefix.len() + value.len() + 1, z),
{
    let x = quoted(prefix, value) + z;
    let a = o + prefix.len();
    let b = a + value.len();
    assert forall|k: int| 0 <= k < x.len() implies t[o + k] == x[k] by {
        lemma_char_from(t, o, x, k);
    }
    assert(t.subrange(o, a) =~= prefix) by {
        assert forall|k: int| 0 <= k < prefix.len() implies t.subrange(o, a)[k] == prefix[k] by {
            assert(x[k] == prefix[k]);
        }
    }
    assert(t.subrange(a, b) =~= value) by {
        assert forall|k: int| 0 <= k < value.len() implies t.subrange(a, b)[k] == value[k] by {
            assert(x[prefix.len() + k] == value[k]);
        }
    }
    assert(t[b] == '"') by {
        assert(x[prefix.len() + value.len() as int] == '"');
    }
    lemma_occurs_single(t, b, '"');
    assert forall|j: int| a <= j < b implies !occurs_at(t, j, quote()) by {
        lemma_occurs_single(t, j, '"');
        assert(x[j - o] == value[j - a]);
    }
    assert(is_first_occurrence(t, a, quote(), b));
    lemma_find_from_is(t, a, quote(), b);
    assert(t.subrange(b + 1, t.len() as int) =~= z) by {
        assert forall|k: int| 0 <= k < z.len() implies t.subrange(b + 1, t.len() as int)[k] == z[k] by {
            assert(x[prefix.len() + value.len() + 1 + k] == z[k]);
        }
    }
}

/// What follows the blocks before the end: nothing, or the next block,
/// which starts with `[[`.
pub open spec fn next_text(r: Seq<char>) -> bool {
    r.len() == 0 || (r.len() >= 2 && r[0] == '[' && r[1] == '[')
}

/// A block's rest holds no `[[`, nor one that the next block completes.
pub open spec fn rest_ends(rest: Seq<char>, r: Seq<char>) -> bool {
    if r.len() == 0 {
        no_table_start(rest)
    } else {
        no_table_start(rest + seq!['['])
    }
}

/// At the end of a block: a newline, then whether the block is replaced,
/// and where the next `[[` is, if any.
proof fn lemma_block_end(t: Seq<char>, o: int, b: LockBlock, r: Seq<char>)
    requires
        text_from(t, o, block_tail(b) + r),
        next_text(r),
        rest_ends(b.rest, r),
    ensures
        occurs_at(t, o, seq!['\n']),
        occurs_at(t, o + 1, seq!['r']) == is_replaced(b),
        find_from(t, o + 1, table_start()) == (if r.len() == 0 {
            None
        } else {
            Some(o + 1 + b.rest.len())
        }),
        r.len() == 0 ==> t.len() == o + 1 + b.rest.len(),
        r.len() > 0 ==> text_from(t, o + 1 + b.rest.len(), r),
{
    reveal_strlit("[[");
    let x = block_tail(b) + r;
    let a = o + 1;
    let end = a + b.rest.len();
    assert forall|k: int| 0 <= k < x.len() implies t[o + k] == x[k] by {
        lemma_char_from(t, o, x, k);
    }
    assert(t.len() == o + x.len());
    lemma_occurs_single(t, o, '\n');
    assert(x[0] == '\n');
    lemma_occurs_single(t, a, 'r');
    if b.rest.len() > 0 {
        assert(x[1] == b.rest[0]);
    } else if r.len() > 0 {
        assert(x[1] == r[0]);
    }
    if r.len() > 0 {
        assert(t[end] == '[' && t[end + 1] == '[') by {
            assert(x[1 + b.rest.len() as int] == r[0]);
            assert(x[2 + b.rest.len() as int] == r[1]);
        }
        assert(t.subrange(end, end + 2) =~= table_start());
        assert forall|j: int| a <= j < end implies !occurs_at(t, j, table_start()) by {
            let s = b.rest + seq!['['];
            if occurs_at(t, j, table_start()) {
                assert(t.subrange(j, j + 2)[0] == '[' && t.subrange(j, j + 2)[1] == '[');
                assert(t[j] == '[' && t[j + 1] == '[');
                assert(s[j - a] == t[j]) by {
                    assert(x[j - o] == b.rest[j - a]);
                }
                assert(s[j - a + 1] == t[j + 1]) by {
                    if j + 1 < end {
                        assert(x[j + 1 - o] == b.rest[j + 1 - a]);
                    } else {
                        assert(x[1 + b.rest.len() as int] == r[0]);
                    }
                }
                assert(s.subrange(j - a, j - a + 2) =~= table_start());
                assert(occurs_at(s, j - a, table_start()));
            }
        }
        assert(is_first_occurrence(t, a, table_start(), end));
        lemma_find_from_is(t, a, table_start(), end);
        assert(t.subrange(end, t.len() as int) =~= r) by {
            assert forall|k: int| 0 <= k < r.len() implies t.subrange(end, t.len() as int)[k] == r[k] by {
                assert(x[1 + b.rest.len() + k] == r[k]);
            }
        }
    } else {
        assert forall|j: int| a <= j implies !occurs_at(t, j, table_start()) by {
            if occurs_at(t, j, table_start()) {
                assert(t.subrange(j, j + 2)[0] == '[' && t.subrange(j, j + 2)[1] == '[');
                assert(t[j] == b.rest[j - a]) by {
                    assert(x[j - o] == b.rest[j - a]);
                }
                assert(t[j + 1] == b.rest[j + 1 - a]) by {
                    assert(x[j + 1 - o] == b.rest[j + 1 - a]);
                }
                assert(b.rest.subrange(j - a, j - a + 2) =~= table_start());
                assert(occurs_at(b.rest, j - a, table_start()));
            }
        }
        if exists|at: int| is_first_occurrence(t, a, table_start(), at) {
            let at = choose|at: int| is_first_occurrence(t, a, table_start(), at);
            assert(!occurs_at(t, at, table_start()));
        }
    }
}

/// A block without a source line does not go on with one.
proof fn lemma_no_source(t: Seq<char>, o: int, b: LockBlock, r: Seq<char>)
    requires
        text_from(t, o, block_tail(b) + r),
        next_text(r),
        !occurs_at(block_tail(b) + seq!['['], 0, source_prefix()),
    ensures
        !occurs_at(t, o, source_prefix()),
{
    reveal_strlit("\nsource = \"");
    let x = block_tail(b) + r;
    let y = block_tail(b) + seq!['['];
    let sp = source_prefix();
    let l = block_tail(b).len() as int;
    assert forall|k: int| 0 <= k < x.len() implies t[o + k] == x[k] by {
        lemma_char_from(t, o, x, k);
    }
    if occurs_at(t, o, sp) {
        assert forall|k: int| 0 <= k < 11 implies t[o + k] == sp[k] by {
            assert(t.subrange(o, o + 11)[k] == t[o + k]);
        }
        if l >= 11 {
            assert(y.subrange(0, 11) =~= sp) by {
                assert forall|k: int| 0 <= k < 11 implies y.subrange(0, 11)[k] == sp[k] by {
                    assert(y[k] == x[k]);
                }
            }
        } else {
            assert(t.len() >= o + 11);
            assert(r.len() > 0);
            assert(t[o + l] == x[l]);
            assert(x[l] == r[0]);
        }
    }
}

/// A replaced registry block without a checksum line goes on with its
/// `replace` line.
proof fn lemma_replaced_tail(t: Seq<char>, o: int, b: LockBlock, r: Seq<char>)
    requires
        text_from(t, o, block_tail(b) + r),
        is_replaced(b),
    ensures
        !occurs_at(t, o, checksum_prefix()),
        occurs_at(t, o, seq!['\n', 'r']),
{
    reveal_strlit("\nchecksum = \"");
    let x = block_tail(b) + r;
    assert(t.subrange(o, t.len() as int).len() == x.len());
    assert(x.len() >= 2);
    lemma_char_from(t, o, x, 0);
    lemma_char_from(t, o, x, 1);
    assert(x[0] == '\n');
    assert(x[1] == b.rest[0]);
    assert(t.subrange(o, o + 2) =~= seq!['\n', 'r']);
    if occurs_at(t, o, checksum_prefix()) {
        assert(t.subrange(o, o + 13)[1] == t[o + 1]);
    }
}

/// The length of a quoted line.
proof fn lemma_quoted_len(prefix: Seq<char>, value: Seq<char>)
    ensures
        quoted(prefix, value).len() == prefix.len() + value.len() + 1,
{
}

/// The entry parsing has once it read a block's name and version.
pub open spec fn named(e: SpecPackageEntry, b: LockBlock) -> SpecPackageEntry {
    with_field(with_field(e, LockField::Name, b.name), LockField::Version, b.version)
}

/// Parsing a block's name and version lines.
proof fn lemma_name_version(t: Seq<char>, o: int, b: LockBlock, r: Seq<char>, e: SpecPackageEntry)
    requires
        text_from(t, o, block_text(b) + r),
        block_wf(b),
    ensures
        ({
            let o2 = o + quoted(name_prefix(), b.name).len() + quoted(version_prefix(), b.version).len();
            &&& text_from(t, o2, after_version(b) + r)
            &&& spec_run(t, o, CursorPosition::StartOfEntry, e) == spec_run(
                t,
                o2,
                CursorPosition::EndOfVersion,
                named(e, b),
            )
        }),
{
    let np = name_prefix();
    let vp = version_prefix();
    let av = after_version(b);
    let z1 = quoted(vp, b.version) + av + r;
    assert(block_text(b) + r =~= quoted(np, b.name) + z1);
    lemma_field(t, o, np, b.name, z1);
    let o1 = o + np.len() + b.name.len() + 1;
    let e1 = with_field(e, LockField::Name, b.name);
    assert(spec_step(t, o, CursorPosition::StartOfEntry, e) == (SpecStep::Continue {
        offset: o1,
        position: CursorPosition::EndOfName,
        entry: e1,
    }));
    assert(spec_run(t, o, CursorPosition::StartOfEntry, e) == spec_run(t, o1, CursorPosition::EndOfName, e1));
    assert(z1 =~= quoted(vp, b.version) + (av + r));
    lemma_field(t, o1, vp, b.version, av + r);
    let o2 = o1 + vp.len() + b.version.len() + 1;
    assert(spec_step(t, o1, CursorPosition::EndOfName, e1) == (SpecStep::Continue {
        offset: o2,
        position: CursorPosition::EndOfVersion,
        entry: named(e, b),
    }));
}

/// Parsing a block's source and checksum lines, if it has them.
proof fn lemma_source_checksum(t: Seq<char>, o2: int, b: LockBlock, r: Seq<char>, e2: SpecPackageEntry)
    requires
        text_from(t, o2, after_version(b) + r),
        block_wf(b),
        next_text(r),
        e2.name == b.name,
        e2.version == b.version,
    ensures
        ({
            let o4 = o2 + source_line(b).len() + checksum_line(b).len();
            &&& text_from(t, o4, block_tail(b) + r)
            &&& spec_run(t, o2, CursorPosition::EndOfVersion, e2) == spec_run(
                t,
                o4,
                CursorPosition::EndOfChecksum,
                block_entry(b),
            )
        }),
{
    let tail = block_tail(b);
    let av = after_version(b);
    let e3 = SpecPackageEntry { source: block_source(b), ..e2 };
    assert(e3 == SpecPackageEntry { name: b.name, version: b.version, source: block_source(b) });
    match b.source {
        None => {
            assert(av + r =~= tail + r);
            lemma_no_source(t, o2, b, r);
            assert(spec_step(t, o2, CursorPosition::EndOfVersion, e2) == (SpecStep::Continue {
                offset: o2,
                position: CursorPosition::EndOfChecksum,
                entry: e3,
            }));
        },
        Some(s) => {
            let sp = source_prefix();
            let ct = checksum_line(b) + tail;
            assert(av + r =~= quoted(sp, s) + (ct + r));
            lemma_field(t, o2, sp, s, ct + r);
            let start = o2 + sp.len();
            let o3 = start + s.len() + 1;
            assert(spec_step(t, o2, CursorPosition::EndOfVersion, e2) == (SpecStep::Continue {
                offset: o3,
                position: CursorPosition::EndOfSource,
                entry: e3,
            }));
            assert(spec_run(t, o2, CursorPosition::EndOfVersion, e2) == spec_run(
                t,
                o3,
                CursorPosition::EndOfSource,
                e3,
            ));
            lemma_source_end(t, o3, b, r, e3);
        },
    }
}

/// Parsing on after a block's source line.
proof fn lemma_source_end(t: Seq<char>, o3: int, b: LockBlock, r: Seq<char>, e3: SpecPackageEntry)
    requires
        text_from(t, o3, checksum_line(b) + block_tail(b) + r),
        block_wf(b),
        b.source is Some,
        e3 == (SpecPackageEntry { name: b.name, version: b.version, source: block_source(b) }),
    ensures
        ({
            let o4 = o3 + checksum_line(b).len();
            &&& text_from(t, o4, block_tail(b) + r)
            &&& spec_run(t, o3, CursorPosition::EndOfSource, e3) == spec_run(
                t,
                o4,
                CursorPosition::EndOfChecksum,
                block_entry(b),
            )
        }),
{
    let tail = block_tail(b);
    let ct = checksum_line(b) + tail;
    let src = block_source(b)->0;
    match b.checksum {
        Some(c) => {
            let cp = checksum_prefix();
            assert(ct + r =~= quoted(cp, c) + (tail + r));
            lemma_field(t, o3, cp, c, tail + r);
            let o35 = o3 + cp.len() + c.len() + 1;
            assert(src is Registry);
            assert(spec_step(t, o3, CursorPosition::EndOfSource, e3) == (SpecStep::Continue {
                offset: o35,
                position: CursorPosition::EndOfChecksum,
                entry: with_field(e3, LockField::Checksum, c),
            }));
        },
        None => {
            assert(ct + r =~= tail + r);
            match src {
                SpecPackageSource::Registry(_) => {
                    lemma_replaced_tail(t, o3, b, r);
                },
                SpecPackageSource::Git(_) => {},
            }
            assert(spec_step(t, o3, CursorPosition::EndOfSource, e3) == (SpecStep::Continue {
                offset: o3,
                position: CursorPosition::EndOfChecksum,
                entry: e3,
            }));
        },
    }
}

/// Parsing on from the end of a block's lines.
proof fn lemma_tail(t: Seq<char>, o4: int, b: LockBlock, r: Seq<char>, ent: SpecPackageEntry)
    requires
        text_from(t, o4, block_tail(b) + r),
        next_text(r),
        rest_ends(b.rest, r),
    ensures
        ({
            let end = o4 + 1 + b.rest.len();
            let next_o = if r.len() == 0 { o4 + 1 } else { end };
            let next_p = if r.len() == 0 { CursorPosition::EndOfFile } else { CursorPosition::StartOfEntry };
            if is_replaced(b) {
                spec_run(t, o4, CursorPosition::EndOfChecksum, ent) == spec_run(t, next_o, next_p, ent)
            } else {
                spec_run(t, o4, CursorPosition::EndOfChecksum, ent) == (
                    Ok::<Option<SpecPackageEntry>, SpecLockError>(Some(ent)),
                    next_o,
                    next_p,
                )
            }
        }),
{
    lemma_block_end(t, o4, b, r);
}

/// Parsing a block from its start, whatever entry parsing goes on with:
/// the block's entry, with the parser left at the next block (or at the end
/// of the file), unless the block is replaced, in which case parsing goes
/// on from there with the block's entry.
proof fn lemma_block(t: Seq<char>, o: int, b: LockBlock, r: Seq<char>, e: SpecPackageEntry)
    requires
        text_from(t, o, block_text(b) + r),
        block_wf(b),
        next_text(r),
        rest_ends(b.rest, r),
    ensures
        ({
            let end = o + block_text(b).len();
            let next_o = if r.len() == 0 { end - b.rest.len() } else { end };
            let next_p = if r.len() == 0 { CursorPosition::EndOfFile } else { CursorPosition::StartOfEntry };
            if is_replaced(b) {
                spec_run(t, o, CursorPosition::StartOfEntry, e) == spec_run(t, next_o, next_p, block_entry(b))
            } else {
                spec_run(t, o, CursorPosition::StartOfEntry, e) == (
                    Ok::<Option<SpecPackageEntry>, SpecLockError>(Some(block_entry(b))),
                    next_o,
                    next_p,
                )
            }
        }),
{
    lemma_name_version(t, o, b, r, e);
    let o2 = o + quoted(name_prefix(), b.name).len() + quoted(version_prefix(), b.version).len();
    lemma_source_checksum(t, o2, b, r, named(e, b));
    let o4 = o2 + source_line(b).len() + checksum_line(b).len();
    lemma_tail(t, o4, b, r, block_entry(b));
    assert(o4 + 1 + b.rest.len() == o + block_text(b).len());
}

/// The text of a block starts with `[[`.
proof fn lemma_block_starts_table(b: LockBlock)
    ensures
        block_text(b).len() >= 2,
        block_text(b)[0] == '[',
        block_text(b)[1] == '[',
{
    reveal_strlit("[[package]]\nname = \"");
    let x = block_text(b);
    let np = name_prefix();
    assert(x[0] == np[0]);
    assert(x[1] == np[1]);
}

/// The text after a prefix of the text from `o` on.
proof fn lemma_text_after(t: Seq<char>, o: int, a: Seq<char>, r: Seq<char>)
    requires
        text_from(t, o, a + r),
    ensures
        text_from(t, o + a.len(), r),
{
    assert(t.subrange(o, t.len() as int).len() == (a + r).len());
    assert(t.subrange(o + a.len(), t.len() as int) =~= r) by {
        assert forall|k: int| 0 <= k < r.len() implies t.subrange(o + a.len(), t.len() as int)[k] == r[k] by {
            lemma_char_from(t, o, a + r, a.len() + k);
            assert((a + r)[a.len() + k] == r[k]);
        }
    }
}

/// What parsing yields from the start of blocks on, with the first of them
/// at `o`: the entries of those that are not replaced; and parsing from
/// there gives the same whatever entry it goes on with.
proof fn lemma_blocks_from(t: Seq<char>, o: int, bs: Seq<LockBlock>)
    requires
        text_from(t, o, blocks_text(bs)),
        blocks_wf(bs),
        bs.len() > 0,
    ensures
        spec_entries_from(t, o, CursorPosition::StartOfEntry) == (
            unreplaced_entries(bs),
            None::<SpecLockError>,
        ),
        forall|e: SpecPackageEntry| #[trigger]
            spec_run(t, o, CursorPosition::StartOfEntry, e) == spec_run(
                t,
                o,
                CursorPosition::StartOfEntry,
                empty_entry(),
            ),
    decreases bs.len(),
{
    let b = bs[0];
    let more = bs.skip(1);
    let r = blocks_text(more);
    assert(blocks_wf(more)) by {
        assert forall|i: int| 0 <= i < more.len() implies block_wf(#[trigger] more[i]) by {
            assert(more[i] == bs[i + 1]);
        }
        assert forall|i: int| 0 <= i < more.len() - 1 implies no_table_start(#[trigger] more[i].rest + seq!['[']) by {
            assert(more[i] == bs[i + 1]);
        }
        if more.len() > 0 {
            assert(more.last() == bs.last());
        }
    }
    assert(block_wf(b));
    if more.len() > 0 {
        lemma_block_starts_table(more[0]);
        assert(r[0] == block_text(more[0])[0] && r[1] == block_text(more[0])[1]);
        assert(no_table_start(bs[0].rest + seq!['[']));
    } else {
        assert(r.len() == 0);
        assert(bs.last() == b);
    }
    assert(next_text(r));
    assert(rest_ends(b.rest, r));
    lemma_text_after(t, o, block_text(b), r);
    let end = o + block_text(b).len();
    assert forall|e: SpecPackageEntry| #[trigger]
        spec_run(t, o, CursorPosition::StartOfEntry, e) == spec_run(
            t,
            o,
            CursorPosition::StartOfEntry,
            empty_entry(),
        ) by {
        lemma_block(t, o, b, r, e);
        lemma_block(t, o, b, r, empty_entry());
    }
    lemma_block(t, o, b, r, empty_entry());
    if more.len() > 0 {
        lemma_blocks_from(t, end, more);
        assert(spec_run(t, end, CursorPosition::StartOfEntry, block_entry(b)) == spec_run(
            t,
            end,
            CursorPosition::StartOfEntry,
            empty_entry(),
        ));
        if is_replaced(b) {
            assert(spec_entries_from(t, o, CursorPosition::StartOfEntry) == spec_entries_from(
                t,
                end,
                CursorPosition::StartOfEntry,
            ));
        } else {
            assert(spec_entries_from(t, o, CursorPosition::StartOfEntry).0 =~= seq![block_entry(b)]
                + spec_entries_from(t, end, CursorPosition::StartOfEntry).0);
        }
    } else {
        let after = end - b.rest.len();
        assert(t.subrange(o, t.len() as int).len() == block_text(b).len());
        assert(0 <= after <= t.len());
        assert(spec_entries_from(t, after, CursorPosition::EndOfFile) == (
            Seq::<SpecPackageEntry>::empty(),
            None::<SpecLockError>,
        ));
        assert(spec_run(t, after, CursorPosition::EndOfFile, block_entry(b)) == (
            Ok::<Option<SpecPackageEntry>, SpecLockError>(None),
            after,
            CursorPosition::EndOfFile,
        ));
        assert(spec_run(t, after, CursorPosition::EndOfFile, empty_entry()) == (
            Ok::<Option<SpecPackageEntry>, SpecLockError>(None),
            after,
            CursorPosition::EndOfFile,
        ));
        assert(unreplaced_entries(more) =~= Seq::<SpecPackageEntry>::empty());
        if !is_replaced(b) {
            assert(spec_entries_from(t, o, CursorPosition::StartOfEntry).0 =~= seq![block_entry(b)]);
        }
    }
}

/// A lock file made of some text without a table, then `[[package]]`
/// blocks written as the parser reads them, yields, with no error, the
/// entry of each block that is not replaced, in the order of the file: its
/// quoted name and version, and the source of its source line (none if it
/// has none), with the checksum of a registry source.
pub proof fn lemma_lock_file(preamble: Seq<char>, bs: Seq<LockBlock>)
    requires
        blocks_wf(bs),
        no_table_start(if bs.len() > 0 { preamble + seq!['['] } else { preamble }),
    ensures
        spec_lock_file(preamble + blocks_text(bs)) == (unreplaced_entries(bs), None::<SpecLockError>),
{
    reveal_strlit("[[");
    let t = preamble + blocks_text(bs);
    let p = preamble.len() as int;
    assert forall|k: int| 0 <= k < p implies t[k] == preamble[k] by {}
    if bs.len() > 0 {
        lemma_block_starts_table(bs[0]);
        assert(blocks_text(bs)[0] == '[' && blocks_text(bs)[1] == '[');
        assert(t[p] == '[' && t[p + 1] == '[');
        assert(t.subrange(p, p + 2) =~= table_start());
        let s = preamble + seq!['['];
        assert forall|j: int| 0 <= j < p implies !occurs_at(t, j, table_start()) by {
            if occurs_at(t, j, table_start()) {
                assert(t.subrange(j, j + 2)[0] == t[j] && t.subrange(j, j + 2)[1] == t[j + 1]);
                assert(s[j] == t[j]);
                assert(s[j + 1] == t[j + 1]);
                assert(s.subrange(j, j + 2) =~= table_start());
                assert(occurs_at(s, j, table_start()));
            }
        }
        assert(is_first_occurrence(t, 0, table_start(), p));
        lemma_find_from_is(t, 0, table_start(), p);
        assert(spec_initial_state(t) == (p, CursorPosition::StartOfEntry));
        assert(t.subrange(p, t.len() as int) =~= blocks_text(bs));
        lemma_blocks_from(t, p, bs);
    } else {
        assert(t =~= preamble);
        if exists|at: int| is_first_occurrence(t, 0, table_start(), at) {
            let at = choose|at: int| is_first_occurrence(t, 0, table_start(), at);
            assert(!occurs_at(preamble, at, table_start()));
        }
        assert(spec_initial_state(t) == (0int, CursorPosition::EndOfFile));
        assert(spec_run(t, 0, CursorPosition::EndOfFile, empty_entry()) == (
            Ok::<Option<SpecPackageEntry>, SpecLockError>(None),
            0int,
            CursorPosition::EndOfFile,
        ));
        assert(unreplaced_entries(bs) =~= Seq::<SpecPackageEntry>::empty());
    }
}

} // verus!
