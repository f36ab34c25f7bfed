//! Where the library keeps its state.
//!
//! Paths are bytes here, as the system has them.

use vstd::prelude::*;

verus! {

/// The bytes of an ASCII text.
pub open spec fn ascii(s: Seq<char>) -> Seq<u8> {
    Seq::new(s.len(), |i: int| s[i] as u8)
}

/// The bytes of an ASCII text.
fn bytes_of(s: &str) -> (r: Vec<u8>)
    requires
        vstd::string::is_ascii(s),
    ensures
        r@ == ascii(s@),
{
    broadcast use vstd::string::is_ascii_spec_bytes;

    let r = vstd::slice::slice_to_vec(s.as_bytes());
    assert(r@ =~= ascii(s@));
    r
}

fn append(out: &mut Vec<u8>, more: &[u8])
    ensures
        final(out)@ == old(out)@ + more@,
{
    let ghost start = out@;
    let mut i: usize = 0;
    while i < more.len()
        invariant
            i <= more@.len(),
            out@ == start + more@.take(i as int),
        decreases more@.len() - i,
    {
        out.push(more[i]);
        assert(start + more@.take(i as int + 1) =~= (start + more@.take(i as int)).push(
            more@[i as int],
        ));
        i = i + 1;
    }
    assert(more@.take(i as int) =~= more@);
}

/// A name inside a directory.
pub open spec fn inside(dir: Seq<u8>, name: Seq<u8>) -> Seq<u8> {
    if dir.len() == 0 || dir.last() == 47u8 {
        dir + name
    } else {
        dir + seq![47u8] + name
    }
}

/// A name inside a directory.
pub fn join_path(dir: &[u8], name: &[u8]) -> (r: Vec<u8>)
    ensures
        r@ == inside(dir@, name@),
{
    let mut out = vstd::slice::slice_to_vec(dir);
    let n: usize = out.len();
    if n > 0 && out[n - 1] != 47 {
        out.push(47);
    }
    append(&mut out, name);
    out
}

/// Under which of its two names the application runs: the command line's, or the
/// menu bar's, which came later.
#[derive(Debug, Clone, Copy, PartialEq, Eq, Structural)]
pub enum App {
    Setwave,
    Setbuddy,
}

impl App {
    /// The name of the state directory.
    pub open spec fn dir_text(self) -> Seq<char> {
        match self {
            App::Setwave => "Setwave"@,
            App::Setbuddy => "Setbuddy"@,
        }
    }

    /// The name of the database.
    pub open spec fn database_text(self) -> Seq<char> {
        match self {
            App::Setwave => "setwave.db"@,
            App::Setbuddy => "setbuddy.db"@,
        }
    }

    /// The name of the socket beside the database.
    pub open spec fn socket_text(self) -> Seq<char> {
        match self {
            App::Setwave => "mpv.sock"@,
            App::Setbuddy => "engine.sock"@,
        }
    }

    /// What the name of a socket elsewhere begins with.
    pub open spec fn prefix_text(self) -> Seq<char> {
        match self {
            App::Setwave => "setwave-"@,
            App::Setbuddy => "setbuddy-"@,
        }
    }

    fn dir_bytes(self) -> (r: Vec<u8>)
        ensures
            r@ == ascii(self.dir_text()),
    {
        proof {
            reveal_strlit("Setwave");
            reveal_strlit("Setbuddy");
        }
        match self {
            App::Setwave => bytes_of("Setwave"),
            App::Setbuddy => bytes_of("Setbuddy"),
        }
    }

    fn database_bytes(self) -> (r: Vec<u8>)
        ensures
            r@ == ascii(self.database_text()),
    {
        proof {
            reveal_strlit("setwave.db");
            reveal_strlit("setbuddy.db");
        }
        match self {
            App::Setwave => bytes_of("setwave.db"),
            App::Setbuddy => bytes_of("setbuddy.db"),
        }
    }

    fn socket_bytes(self) -> (r: Vec<u8>)
        ensures
            r@ == ascii(self.socket_text()),
    {
        proof {
            reveal_strlit("mpv.sock");
            reveal_strlit("engine.sock");
        }
        match self {
            App::Setwave => bytes_of("mpv.sock"),
            App::Setbuddy => bytes_of("engine.sock"),
        }
    }

    fn prefix_bytes(self) -> (r: Vec<u8>)
        ensures
            r@ == ascii(self.prefix_text()),
    {
        proof {
            reveal_strlit("setwave-");
            reveal_strlit("setbuddy-");
        }
        match self {
            App::Setwave => bytes_of("setwave-"),
            App::Setbuddy => bytes_of("setbuddy-"),
        }
    }
}

/// The directory for the database and the shared engine socket: the one asked
/// for, else the application's own among the user's data, or among temporary
/// files where the user has no place for data.
pub open spec fn state_place(
    app: App,
    asked: Option<Seq<u8>>,
    data: Option<Seq<u8>>,
    temp: Seq<u8>,
) -> Seq<u8> {
    match asked {
        Some(dir) => dir,
        None => match data {
            Some(dir) => inside(dir, ascii(app.dir_text())),
            None => inside(temp, ascii(app.dir_text())),
        },
    }
}

pub open spec fn bytes_view(o: Option<&[u8]>) -> Option<Seq<u8>> {
    match o {
        Some(b) => Some(b@),
        None => None,
    }
}

/// Root for the database and the shared engine socket. `asked` is what
/// `SETWAVE_STATE_DIR` or `SETBUDDY_STATE_DIR` says, `data` the place for the
/// user's data and `temp` the one for temporary files.
pub fn state_dir(app: App, asked: Option<&[u8]>, data: Option<&[u8]>, temp: &[u8]) -> (r: Vec<u8>)
    ensures
        r@ == state_place(app, bytes_view(asked), bytes_view(data), temp@),
{
    let name = app.dir_bytes();
    match asked {
        Some(dir) => vstd::slice::slice_to_vec(dir),
        None => match data {
            Some(dir) => join_path(dir, name.as_slice()),
            None => join_path(temp, name.as_slice()),
        },
    }
}

/// The database inside the state directory.
pub fn database_path(app: App, state_dir: &[u8]) -> (r: Vec<u8>)
    ensures
        r@ == inside(state_dir@, ascii(app.database_text())),
{
    let name = app.database_bytes();
    join_path(state_dir, name.as_slice())
}

/// The cached pictures inside the state directory.
pub fn cache_dir(state_dir: &[u8]) -> (r: Vec<u8>)
    ensures
        r@ == inside(state_dir@, ascii("artwork"@)),
{
    proof {
        reveal_strlit("artwork");
    }
    let name = bytes_of("artwork");
    join_path(state_dir, name.as_slice())
}

/// Longest socket path handed to the system. It allows 104 bytes on one system
/// and 108 on another, with the terminator; this leaves headroom on both.
pub const MAX_SOCKET_PATH_BYTES: usize = 100;

/// One byte taken into a hash: the 64-bit FNV-1a step.
pub open spec fn hash_step(hash: u64, byte: u8) -> u64 {
    (hash ^ (byte as u64)).wrapping_mul(0x100_0000_01b3)
}

/// The 64-bit FNV-1a hash. It is short and the same every time, and need not be
/// more.
pub open spec fn hash_of(bytes: Seq<u8>) -> u64
    decreases bytes.len(),
{
    if bytes.len() == 0 {
        0xcbf2_9ce4_8422_2325
    } else {
        hash_step(hash_of(bytes.drop_last()), bytes.last())
    }
}

/// A hexadecimal digit.
pub open spec fn hex_digit(d: nat) -> u8 {
    if d < 10 {
        (48 + d) as u8
    } else {
        (87 + d) as u8
    }
}

/// The last `k` hexadecimal digits of `n`.
pub open spec fn hex(n: nat, k: nat) -> Seq<u8>
    decreases k,
{
    if k == 0 {
        Seq::empty()
    } else {
        hex(n / 16, (k - 1) as nat).push(hex_digit(n % 16))
    }
}

fn hash(bytes: &[u8]) -> (h: u64)
    ensures
        h == hash_of(bytes@),
{
    let mut h: u64 = 0xcbf2_9ce4_8422_2325;
    let mut i: usize = 0;
    while i < bytes.len()
        invariant
            i <= bytes@.len(),
            h == hash_of(bytes@.take(i as int)),
        decreases bytes@.len() - i,
    {
        proof {
            assert(bytes@.take(i as int + 1).drop_last() =~= bytes@.take(i as int));
            assert(bytes@.take(i as int + 1).last() == bytes@[i as int]);
        }
        h = (h ^ (bytes[i] as u64)).wrapping_mul(0x100_0000_01b3);
        i = i + 1;
    }
    assert(bytes@.take(i as int) =~= bytes@);
    h
}

fn hex_bytes(n: u64, k: usize) -> (out: Vec<u8>)
    ensures
        out@ == hex(n as nat, k as nat),
    decreases k,
{
    if k == 0 {
        Vec::new()
    } else {
        let mut out = hex_bytes(n / 16, k - 1);
        let d: u8 = (n % 16) as u8;
        out.push(
            if d < 10 {
                48 + d
            } else {
                87 + d
            },
        );
        out
    }
}

/// The FNV-1a hash of a path, in sixteen hexadecimal digits.
pub fn short_hash(path: &[u8]) -> (r: Vec<u8>)
    ensures
        r@ == hex(hash_of(path@) as nat, 16),
{
    hex_bytes(hash(path), 16)
}

/// The name of a socket that stands in for a state directory.
pub open spec fn socket_name(app: App, state: Seq<u8>) -> Seq<u8> {
    ascii(app.prefix_text()) + hex(hash_of(state) as nat, 16) + ascii(".sock"@)
}

/// Beside the database, where that is short enough; else a short name among
/// temporary files; else in the shortest directory that is writable everywhere.
pub open spec fn socket_place(app: App, state: Seq<u8>, temp: Seq<u8>) -> Seq<u8> {
    let preferred = inside(state, ascii(app.socket_text()));
    let in_temp = inside(temp, socket_name(app, state));
    if preferred.len() <= MAX_SOCKET_PATH_BYTES {
        preferred
    } else if in_temp.len() <= MAX_SOCKET_PATH_BYTES {
        in_temp
    } else {
        ascii("/tmp/"@) + socket_name(app, state)
    }
}

/// Whether a path is short enough for a socket.
pub fn fits(path: &[u8]) -> (r: bool)
    ensures
        r == (path@.len() <= MAX_SOCKET_PATH_BYTES),
{
    path.len() <= MAX_SOCKET_PATH_BYTES
}

/// The socket that successive processes meet on. Where it cannot be inside the
/// state directory it is named after it, and the same directory always has the
/// same socket: that is what lets one process take over what another started.
pub fn socket_path_for(app: App, state_dir: &[u8], temp_dir: &[u8]) -> (r: Vec<u8>)
    ensures
        r@ == socket_place(app, state_dir@, temp_dir@),
{
    proof {
        reveal_strlit(".sock");
        reveal_strlit("/tmp/");
    }
    let file = app.socket_bytes();
    let preferred = join_path(state_dir, file.as_slice());
    if fits(preferred.as_slice()) {
        return preferred;
    }
    let digits = short_hash(state_dir);
    let end = bytes_of(".sock");
    let mut name = app.prefix_bytes();
    append(&mut name, digits.as_slice());
    append(&mut name, end.as_slice());
    let in_temp = join_path(temp_dir, name.as_slice());
    if fits(in_temp.as_slice()) {
        return in_temp;
    }
    let mut last = bytes_of("/tmp/");
    append(&mut last, name.as_slice());
    last
}

proof fn lemma_hex_len(n: nat, k: nat)
    ensures
        hex(n, k).len() == k,
    decreases k,
{
    if k > 0 {
        lemma_hex_len(n / 16, (k - 1) as nat);
    }
}

/// Whatever the directories, the socket's path is short enough.
pub proof fn law_socket_always_fits(app: App, state: Seq<u8>, temp: Seq<u8>)
    ensures
        socket_place(app, state, temp).len() <= MAX_SOCKET_PATH_BYTES,
{
    reveal_strlit("setwave-");
    reveal_strlit("setbuddy-");
    reveal_strlit(".sock");
    reveal_strlit("/tmp/");
    lemma_hex_len(hash_of(state) as nat, 16);
}

proof fn lemma_hex_injective(a: nat, b: nat, k: nat)
    requires
        hex(a, k) == hex(b, k),
        a < vstd::arithmetic::power::pow(16, k),
        b < vstd::arithmetic::power::pow(16, k),
    ensures
        a == b,
    decreases k,
{
    vstd::arithmetic::power::lemma_pow0(16);
    if k > 0 {
        let j = (k - 1) as nat;
        vstd::arithmetic::power::lemma_pow_adds(16, 1, j);
        vstd::arithmetic::power::lemma_pow1(16);
        assert(hex(a, k).drop_last() =~= hex(a / 16, j));
        assert(hex(b, k).drop_last() =~= hex(b / 16, j));
        assert(hex(a, k).last() == hex_digit(a % 16));
        assert(hex(b, k).last() == hex_digit(b % 16));
        assert(a % 16 == b % 16);
        assert(a / 16 < vstd::arithmetic::power::pow(16, j));
        assert(b / 16 < vstd::arithmetic::power::pow(16, j));
        lemma_hex_injective(a / 16, b / 16, j);
    }
}

/// Two state directories share a stand-in name only where their hashes meet.
pub proof fn law_names_differ_with_the_hash(app: App, a: Seq<u8>, b: Seq<u8>)
    requires
        hash_of(a) != hash_of(b),
    ensures
        socket_name(app, a) != socket_name(app, b),
{
    let x = hash_of(a) as nat;
    let y = hash_of(b) as nat;
    lemma_hex_len(x, 16);
    lemma_hex_len(y, 16);
    if socket_name(app, a) == socket_name(app, b) {
        let n = ascii(app.prefix_text()).len() as int;
        assert(socket_name(app, a).subrange(n, n + 16) =~= hex(x, 16));
        assert(socket_name(app, b).subrange(n, n + 16) =~= hex(y, 16));
        assert(vstd::arithmetic::power::pow(16, 16) > 0xffff_ffff_ffff_ffff) by {
            reveal_with_fuel(vstd::arithmetic::power::pow, 17);
        }
        lemma_hex_injective(x, y, 16);
    }
}

/// Where a byte first stands; the length where it does not.
pub open spec fn first(s: Seq<u8>, b: u8) -> int
    decreases s.len(),
{
    if s.len() == 0 || s[0] == b {
        0
    } else {
        1 + first(s.drop_first(), b)
    }
}

/// The pieces between the occurrences of a byte.
pub open spec fn pieces(s: Seq<u8>, b: u8) -> Seq<Seq<u8>>
    decreases s.len(),
{
    let k = first(s, b);
    if 0 <= k < s.len() {
        seq![s.take(k)] + pieces(s.skip(k + 1), b)
    } else {
        seq![s]
    }
}

/// The pieces that are not empty.
pub open spec fn filled(list: Seq<Seq<u8>>) -> Seq<Seq<u8>>
    decreases list.len(),
{
    if list.len() == 0 {
        list
    } else if list.last().len() == 0 {
        filled(list.drop_last())
    } else {
        filled(list.drop_last()).push(list.last())
    }
}

/// The parts of a path that say something: no empty ones, and no current
/// directory but at the front.
pub open spec fn parts(list: Seq<Seq<u8>>) -> Seq<Seq<u8>>
    decreases list.len(),
{
    if list.len() == 0 {
        list
    } else if list.last().len() == 0 || (list.last() == seq![46u8] && list.len() > 1) {
        parts(list.drop_last())
    } else {
        parts(list.drop_last()).push(list.last())
    }
}

/// Whether two texts are the same path.
pub open spec fn same_path(a: Seq<u8>, b: Seq<u8>) -> bool {
    &&& (a.len() > 0 && a[0] == 47u8) == (b.len() > 0 && b[0] == 47u8)
    &&& parts(pieces(a, 47)) == parts(pieces(b, 47))
}

/// Whether a path is among others.
pub open spec fn present(list: Seq<Seq<u8>>, path: Seq<u8>) -> bool {
    exists|i: int| 0 <= i < list.len() && same_path(#[trigger] list[i], path)
}

/// The directories, with each of `extra` behind them that is not among them.
pub open spec fn extended(dirs: Seq<Seq<u8>>, extra: Seq<Seq<u8>>) -> Seq<Seq<u8>>
    decreases extra.len(),
{
    if extra.len() == 0 {
        dirs
    } else {
        let so_far = extended(dirs, extra.drop_last());
        if present(so_far, extra.last()) {
            so_far
        } else {
            so_far.push(extra.last())
        }
    }
}

/// The directories with colons between them.
pub open spec fn coloned(dirs: Seq<Seq<u8>>) -> Seq<u8>
    decreases dirs.len(),
{
    if dirs.len() == 0 {
        Seq::empty()
    } else if dirs.len() == 1 {
        dirs[0]
    } else {
        coloned(dirs.drop_last()) + seq![58u8] + dirs.last()
    }
}

/// Whether any directory's name holds a colon, so that no list can name it.
pub open spec fn unlistable(dirs: Seq<Seq<u8>>) -> bool {
    exists|i: int| 0 <= i < dirs.len() && (#[trigger] dirs[i]).contains(58u8)
}

/// The directories that a search path names, without the empty ones: those would
/// mean the working directory.
pub open spec fn listed(path: Seq<u8>) -> Seq<Seq<u8>> {
    filled(pieces(path, 58))
}

/// A search path with more directories at its end.
pub open spec fn augmented(current: Seq<u8>, extra: Seq<Seq<u8>>) -> Seq<u8> {
    let dirs = extended(listed(current), extra);
    if unlistable(dirs) {
        current
    } else {
        coloned(dirs)
    }
}

pub open spec fn byte_views(v: Seq<Vec<u8>>) -> Seq<Seq<u8>> {
    Seq::new(v.len(), |i: int| v[i]@)
}

pub proof fn lemma_first(s: Seq<u8>, b: u8, k: int)
    requires
        0 <= k <= s.len(),
        k < s.len() ==> s[k] == b,
        forall|i: int| 0 <= i < k ==> s[i] != b,
    ensures
        first(s, b) == k,
    decreases k,
{
    if k > 0 {
        let rest = s.drop_first();
        assert forall|i: int| 0 <= i < k - 1 implies rest[i] != b by {
            assert(rest[i] == s[i + 1]);
        }
        lemma_first(rest, b, k - 1);
    }
}

fn find_byte(s: &[u8], b: u8) -> (r: usize)
    ensures
        r == first(s@, b),
        r <= s@.len(),
{
    let mut i: usize = 0;
    while i < s.len()
        invariant
            i <= s@.len(),
            forall|k: int| 0 <= k < i ==> s@[k] != b,
        decreases s@.len() - i,
    {
        if s[i] == b {
            proof {
                lemma_first(s@, b, i as int);
            }
            return i;
        }
        i = i + 1;
    }
    proof {
        lemma_first(s@, b, i as int);
    }
    i
}

fn split_bytes(s: &[u8], b: u8) -> (out: Vec<Vec<u8>>)
    ensures
        byte_views(out@) == pieces(s@, b),
{
    let mut out: Vec<Vec<u8>> = Vec::new();
    let mut from: usize = 0;
    assert(s@.skip(0) =~= s@);
    assert(byte_views(out@) + pieces(s@, b) =~= pieces(s@, b));
    loop
        invariant_except_break
            from <= s@.len(),
            pieces(s@, b) == byte_views(out@) + pieces(s@.skip(from as int), b),
        ensures
            byte_views(out@) == pieces(s@, b),
        decreases s@.len() - from,
    {
        let rest = vstd::slice::slice_subrange(s, from, s.len());
        assert(rest@ =~= s@.skip(from as int));
        let k: usize = find_byte(rest, b);
        let ghost had = byte_views(out@);
        let piece = vstd::slice::slice_to_vec(vstd::slice::slice_subrange(rest, 0, k));
        assert(piece@ =~= rest@.take(k as int));
        if k < rest.len() {
            out.push(piece);
            proof {
                assert(byte_views(out@) =~= had.push(rest@.take(k as int)));
                assert(s@.skip(from + k + 1) =~= rest@.skip(k as int + 1));
                assert(had + (seq![rest@.take(k as int)] + pieces(rest@.skip(k as int + 1), b))
                    =~= had.push(rest@.take(k as int)) + pieces(rest@.skip(k as int + 1), b));
            }
            from = from + k + 1;
        } else {
            out.push(piece);
            proof {
                assert(rest@.take(k as int) =~= rest@);
                assert(byte_views(out@) =~= had + seq![rest@]);
            }
            break ;
        }
    }
    out
}

fn drop_empty(list: &Vec<Vec<u8>>) -> (out: Vec<Vec<u8>>)
    ensures
        byte_views(out@) == filled(byte_views(list@)),
{
    let ghost all = byte_views(list@);
    let mut out: Vec<Vec<u8>> = Vec::new();
    let mut i: usize = 0;
    assert(byte_views(out@) =~= filled(all.take(0)));
    while i < list.len()
        invariant
            i <= list@.len(),
            all == byte_views(list@),
            byte_views(out@) == filled(all.take(i as int)),
        decreases list@.len() - i,
    {
        let ghost had = byte_views(out@);
        proof {
            assert(all.take(i as int + 1).drop_last() =~= all.take(i as int));
            assert(all.take(i as int + 1).last() == list@[i as int]@);
        }
        if list[i].len() > 0 {
            out.push(vstd::slice::slice_to_vec(list[i].as_slice()));
            assert(byte_views(out@) =~= had.push(list@[i as int]@));
        }
        i = i + 1;
    }
    assert(all.take(i as int) =~= all);
    out
}

fn path_parts(path: &[u8]) -> (out: Vec<Vec<u8>>)
    ensures
        byte_views(out@) == parts(pieces(path@, 47)),
{
    let list = split_bytes(path, 47);
    let ghost all = byte_views(list@);
    let mut out: Vec<Vec<u8>> = Vec::new();
    let mut i: usize = 0;
    assert(byte_views(out@) =~= parts(all.take(0)));
    while i < list.len()
        invariant
            i <= list@.len(),
            all == byte_views(list@),
            byte_views(out@) == parts(all.take(i as int)),
        decreases list@.len() - i,
    {
        let ghost had = byte_views(out@);
        let ghost here = list@[i as int]@;
        let dot: bool = list[i].len() == 1 && list[i][0] == 46 && i > 0;
        proof {
            assert(all.take(i as int + 1).drop_last() =~= all.take(i as int));
            assert(all.take(i as int + 1).last() == here);
            if here.len() == 1 && here[0] == 46 {
                assert(here =~= seq![46u8]);
            }
        }
        if list[i].len() > 0 && !dot {
            out.push(vstd::slice::slice_to_vec(list[i].as_slice()));
            assert(byte_views(out@) =~= had.push(here));
        }
        i = i + 1;
    }
    assert(all.take(i as int) =~= all);
    out
}

fn same_bytes(a: &[u8], b: &[u8]) -> (r: bool)
    ensures
        r == (a@ == b@),
{
    if a.len() != b.len() {
        return false;
    }
    let mut i: usize = 0;
    while i < a.len()
        invariant
            i <= a@.len(),
            a@.len() == b@.len(),
            forall|k: int| 0 <= k < i ==> a@[k] == b@[k],
        decreases a@.len() - i,
    {
        if a[i] != b[i] {
            return false;
        }
        i = i + 1;
    }
    assert(a@ =~= b@);
    true
}

fn is_same_path(a: &[u8], b: &[u8]) -> (r: bool)
    ensures
        r == same_path(a@, b@),
{
    let rooted_a: bool = a.len() > 0 && a[0] == 47;
    let rooted_b: bool = b.len() > 0 && b[0] == 47;
    if rooted_a != rooted_b {
        return false;
    }
    let x = path_parts(a);
    let y = path_parts(b);
    if x.len() != y.len() {
        assert(byte_views(x@).len() != byte_views(y@).len());
        return false;
    }
    let mut i: usize = 0;
    while i < x.len()
        invariant
            i <= x@.len(),
            x@.len() == y@.len(),
            byte_views(x@) == parts(pieces(a@, 47)),
            byte_views(y@) == parts(pieces(b@, 47)),
            forall|k: int| 0 <= k < i ==> (#[trigger] x@[k])@ == y@[k]@,
        decreases x@.len() - i,
    {
        if !same_bytes(x[i].as_slice(), y[i].as_slice()) {
            assert(byte_views(x@)[i as int] != byte_views(y@)[i as int]);
            return false;
        }
        i = i + 1;
    }
    assert(byte_views(x@) =~= byte_views(y@));
    true
}

fn is_present(list: &Vec<Vec<u8>>, path: &[u8]) -> (r: bool)
    ensures
        r == present(byte_views(list@), path@),
{
    let mut i: usize = 0;
    while i < list.len()
        invariant
            i <= list@.len(),
            forall|k: int| 0 <= k < i ==> !same_path(#[trigger] byte_views(list@)[k], path@),
        decreases list@.len() - i,
    {
        assert(byte_views(list@)[i as int] == list@[i as int]@);
        if is_same_path(list[i].as_slice(), path) {
            return true;
        }
        i = i + 1;
    }
    false
}

fn has_colon(list: &Vec<Vec<u8>>) -> (r: bool)
    ensures
        r == unlistable(byte_views(list@)),
{
    let mut i: usize = 0;
    while i < list.len()
        invariant
            i <= list@.len(),
            forall|k: int| 0 <= k < i ==> !(#[trigger] byte_views(list@)[k]).contains(58u8),
        decreases list@.len() - i,
    {
        let k: usize = find_byte(list[i].as_slice(), 58);
        assert(byte_views(list@)[i as int] == list@[i as int]@);
        proof {
            lemma_first_found(list@[i as int]@, 58);
        }
        if k < list[i].len() {
            return true;
        }
        i = i + 1;
    }
    false
}

proof fn lemma_first_found(s: Seq<u8>, b: u8)
    ensures
        0 <= first(s, b) <= s.len(),
        first(s, b) < s.len() <==> s.contains(b),
    decreases s.len(),
{
    if s.len() > 0 && s[0] != b {
        let rest = s.drop_first();
        lemma_first_found(rest, b);
        if s.contains(b) {
            let k = choose|k: int| 0 <= k < s.len() && s[k] == b;
            assert(rest[k - 1] == b);
        }
        if rest.contains(b) {
            let k = choose|k: int| 0 <= k < rest.len() && rest[k] == b;
            assert(s[k + 1] == b);
        }
    }
}

fn join_colons(list: &Vec<Vec<u8>>) -> (out: Vec<u8>)
    ensures
        out@ == coloned(byte_views(list@)),
{
    let ghost all = byte_views(list@);
    let mut out: Vec<u8> = Vec::new();
    let mut i: usize = 0;
    while i < list.len()
        invariant
            i <= list@.len(),
            all == byte_views(list@),
            out@ == coloned(all.take(i as int)),
        decreases list@.len() - i,
    {
        proof {
            assert(all.take(i as int + 1).drop_last() =~= all.take(i as int));
            assert(all.take(i as int + 1).last() == list@[i as int]@);
        }
        if i > 0 {
            out.push(58);
        }
        append(&mut out, list[i].as_slice());
        assert(out@ =~= coloned(all.take(i as int + 1)));
        i = i + 1;
    }
    assert(all.take(i as int) =~= all);
    out
}

/// A search path with each of `extra` appended unless it is already present.
/// What was there keeps its order and its precedence.
pub fn augmented_path(current: &[u8], extra: &Vec<Vec<u8>>) -> (r: Vec<u8>)
    ensures
        r@ == augmented(current@, byte_views(extra@)),
{
    let listed_now = split_bytes(current, 58);
    let mut dirs = drop_empty(&listed_now);
    let ghost start = byte_views(dirs@);
    let ghost more = byte_views(extra@);
    let mut i: usize = 0;
    assert(extended(start, more.take(0)) =~= start);
    while i < extra.len()
        invariant
            i <= extra@.len(),
            more == byte_views(extra@),
            byte_views(dirs@) == extended(start, more.take(i as int)),
        decreases extra@.len() - i,
    {
        let ghost had = byte_views(dirs@);
        proof {
            assert(more.take(i as int + 1).drop_last() =~= more.take(i as int));
            assert(more.take(i as int + 1).last() == extra@[i as int]@);
        }
        if !is_present(&dirs, extra[i].as_slice()) {
            dirs.push(vstd::slice::slice_to_vec(extra[i].as_slice()));
            assert(byte_views(dirs@) =~= had.push(extra@[i as int]@));
        }
        i = i + 1;
    }
    assert(more.take(i as int) =~= more);
    if has_colon(&dirs) {
        return vstd::slice::slice_to_vec(current);
    }
    join_colons(&dirs)
}

/// Where a program may be: in each directory of a search path, in its order.
pub open spec fn places_of(path: Seq<u8>, name: Seq<u8>) -> Seq<Seq<u8>> {
    let dirs = pieces(path, 58u8);
    Seq::new(dirs.len(), |i: int| inside(dirs[i], name))
}

/// Where a program may be: in each directory of a search path, in its order.
pub fn program_places(path: &[u8], name: &[u8]) -> (r: Vec<Vec<u8>>)
    ensures
        byte_views(r@) == places_of(path@, name@),
{
    let dirs = split_bytes(path, 58);
    let ghost all = places_of(path@, name@);
    let mut out: Vec<Vec<u8>> = Vec::new();
    let mut i: usize = 0;
    while i < dirs.len()
        invariant
            i <= dirs@.len(),
            byte_views(dirs@) == pieces(path@, 58u8),
            all == places_of(path@, name@),
            byte_views(out@) == all.take(i as int),
        decreases dirs@.len() - i,
    {
        let ghost had = byte_views(out@);
        assert(byte_views(dirs@)[i as int] == dirs@[i as int]@);
        out.push(join_path(dirs[i].as_slice(), name));
        proof {
            assert(byte_views(out@) =~= had.push(all[i as int]));
            assert(all.take(i as int + 1) =~= all.take(i as int).push(all[i as int]));
        }
        i = i + 1;
    }
    assert(all.take(i as int) =~= all);
    out
}

/// What was on the search path stays in front, in its order.
pub proof fn law_existing_path_keeps_its_precedence(dirs: Seq<Seq<u8>>, extra: Seq<Seq<u8>>)
    ensures
        extended(dirs, extra).len() >= dirs.len(),
        extended(dirs, extra).take(dirs.len() as int) == dirs,
    decreases extra.len(),
{
    if extra.len() > 0 {
        law_existing_path_keeps_its_precedence(dirs, extra.drop_last());
        let so_far = extended(dirs, extra.drop_last());
        assert(extended(dirs, extra).take(dirs.len() as int) =~= so_far.take(dirs.len() as int));
    } else {
        assert(dirs.take(dirs.len() as int) =~= dirs);
    }
}

/// Every directory to be added is on the search path in the end.
pub proof fn law_every_extra_is_present(dirs: Seq<Seq<u8>>, extra: Seq<Seq<u8>>, k: int)
    requires
        0 <= k < extra.len(),
    ensures
        present(extended(dirs, extra), extra[k]),
    decreases extra.len(),
{
    let so_far = extended(dirs, extra.drop_last());
    let out = extended(dirs, extra);
    if k < extra.len() - 1 {
        law_every_extra_is_present(dirs, extra.drop_last(), k);
        assert(extra.drop_last()[k] == extra[k]);
        let i = choose|i: int|
            0 <= i < so_far.len() && same_path(#[trigger] so_far[i], extra[k]);
        assert(out[i] == so_far[i]);
    } else if !present(so_far, extra.last()) {
        assert(out[so_far.len() as int] == extra.last());
    }
}

/// A directory that is on the search path already is not added again.
pub proof fn law_present_directory_is_not_added(dirs: Seq<Seq<u8>>, path: Seq<u8>)
    requires
        present(dirs, path),
    ensures
        extended(dirs, seq![path]) == dirs,
{
    assert(seq![path].drop_last() =~= Seq::<Seq<u8>>::empty());
    assert(extended(dirs, Seq::<Seq<u8>>::empty()) == dirs);
}

/// No empty directory is listed: it would mean the working directory.
pub proof fn law_no_empty_directory_is_listed(list: Seq<Seq<u8>>)
    ensures
        forall|i: int| 0 <= i < filled(list).len() ==> (#[trigger] filled(list)[i]).len() > 0,
    decreases list.len(),
{
    if list.len() > 0 {
        law_no_empty_directory_is_listed(list.drop_last());
        let front = filled(list.drop_last());
        assert forall|i: int| 0 <= i < filled(list).len() implies (#[trigger] filled(
            list,
        )[i]).len() > 0 by {
            if i < front.len() {
                assert(front[i].len() > 0);
            }
        }
    }
}

/// Directories that a launch from a desktop drops from the search path, where the
/// system is one that does so.
pub fn tool_dirs(macos: bool) -> (r: Vec<Vec<u8>>)
    ensures
        byte_views(r@) == if macos {
            seq![
                ascii("/opt/homebrew/bin"@),
                ascii("/usr/local/bin"@),
                ascii("/opt/local/bin"@),
            ]
        } else {
            Seq::empty()
        },
{
    let mut out: Vec<Vec<u8>> = Vec::new();
    proof {
        reveal_strlit("/opt/homebrew/bin");
        reveal_strlit("/usr/local/bin");
        reveal_strlit("/opt/local/bin");
    }
    if macos {
        out.push(bytes_of("/opt/homebrew/bin"));
        out.push(bytes_of("/usr/local/bin"));
        out.push(bytes_of("/opt/local/bin"));
        assert(byte_views(out@) =~= seq![
            ascii("/opt/homebrew/bin"@),
            ascii("/usr/local/bin"@),
            ascii("/opt/local/bin"@),
        ]);
    } else {
        assert(byte_views(out@) =~= Seq::<Seq<u8>>::empty());
    }
    out
}

/// Whether the state directory left under the previous name is looked for: only
/// where none was asked for and there is none yet.
pub fn looks_for_previous(asked: bool, in_place: bool) -> (r: bool)
    ensures
        r == (!asked && !in_place),
{
    !asked && !in_place
}

/// Whether a directory left under the previous name is moved into place: where it
/// is one, and nothing stands in its way.
pub fn adopts(previous_is_dir: bool, current_exists: bool) -> (r: bool)
    ensures
        r == (previous_is_dir && !current_exists),
{
    previous_is_dir && !current_exists
}

/// The name of the state directory before the application was renamed.
pub fn previous_name() -> (r: &'static str)
    ensures
        r@ == "Setwave"@,
{
    "Setwave"
}

/// The files of the database that change their names when the directory is
/// moved: the database itself, its log and its index. All three go together, or
/// the log is orphaned.
pub fn renames() -> (r: Vec<(&'static str, &'static str)>)
    ensures
        r@.len() == 3,
        r@[0].0@ == "setwave.db"@ && r@[0].1@ == "setbuddy.db"@,
        r@[1].0@ == "setwave.db-wal"@ && r@[1].1@ == "setbuddy.db-wal"@,
        r@[2].0@ == "setwave.db-shm"@ && r@[2].1@ == "setbuddy.db-shm"@,
{
    let mut out: Vec<(&'static str, &'static str)> = Vec::new();
    out.push(("setwave.db", "setbuddy.db"));
    out.push(("setwave.db-wal", "setbuddy.db-wal"));
    out.push(("setwave.db-shm", "setbuddy.db-shm"));
    out
}

} // verus!
