//! The claiming of a socket name.
//!
//! A name belongs to whoever holds the lock on the file beside it. A listener
//! either claims the name that it was given, or searches for one that nobody
//! else is using.

use vstd::prelude::*;

verus! {

/// The highest `N` tried when naming the socket `wayland-N` ourselves
pub const MAX_AUTO_DISPLAY: u32 = 32;

/// A decimal digit.
pub open spec fn digit(d: nat) -> char
    recommends
        d < 10,
{
    seq!['0', '1', '2', '3', '4', '5', '6', '7', '8', '9'][d as int]
}

/// A number in decimal notation.
pub open spec fn decimal(n: nat) -> Seq<char>
    decreases n,
{
    if n < 10 {
        seq![digit(n)]
    } else {
        decimal(n / 10).push(digit(n % 10))
    }
}

/// The path of the file whose lock stands for a socket name.
pub open spec fn lock_name(socket_path: Seq<char>) -> Seq<char> {
    socket_path + ".lock"@
}

/// The path of the `n`th socket name that is tried in a directory.
pub open spec fn candidate(runtime_dir: Seq<char>, n: nat) -> Seq<char> {
    runtime_dir + "/wayland-"@ + decimal(n)
}

/// Why a socket name could not be claimed
#[derive(Debug)]
pub enum SocketNameError {
    /// The lock file cannot be opened
    CannotOpenLock {
        /// The path of the lock file
        lock_path: String,
        /// What the system said
        cause: String,
    },
    /// Another process holds the lock
    InUse {
        /// The path of the socket
        socket_path: String,
        /// What the system said
        cause: String,
    },
    /// No directory to put the socket in is known
    NoRuntimeDir,
    /// None of the names that are tried could be claimed
    AllTaken {
        /// The directory that was searched
        runtime_dir: String,
    },
}

/// Why a socket name could not be claimed, as a mathematical value.
#[verifier::ext_equal]
pub enum SocketNameErrorView {
    CannotOpenLock { lock_path: Seq<char>, cause: Seq<char> },
    InUse { socket_path: Seq<char>, cause: Seq<char> },
    NoRuntimeDir,
    AllTaken { runtime_dir: Seq<char> },
}

impl View for SocketNameError {
    type V = SocketNameErrorView;

    open spec fn view(&self) -> SocketNameErrorView {
        match self {
            SocketNameError::CannotOpenLock { lock_path, cause } =>
                SocketNameErrorView::CannotOpenLock { lock_path: lock_path@, cause: cause@ },
            SocketNameError::InUse { socket_path, cause } => SocketNameErrorView::InUse {
                socket_path: socket_path@,
                cause: cause@,
            },
            SocketNameError::NoRuntimeDir => SocketNameErrorView::NoRuntimeDir,
            SocketNameError::AllTaken { runtime_dir } => SocketNameErrorView::AllTaken {
                runtime_dir: runtime_dir@,
            },
        }
    }
}

/// An error in words.
pub open spec fn error_text(error: SocketNameErrorView) -> Seq<char> {
    match error {
        SocketNameErrorView::CannotOpenLock { lock_path, cause } =>
            "cannot open the lock file "@ + lock_path + ": "@ + cause,
        SocketNameErrorView::InUse { socket_path, cause } =>
            "another compositor is already using "@ + socket_path + " ("@ + cause
            + "); set a different socket_path to run a second one"@,
        SocketNameErrorView::NoRuntimeDir =>
            "XDG_RUNTIME_DIR is not set; cannot auto-name the socket"@,
        SocketNameErrorView::AllTaken { runtime_dir } =>
            "every socket name from wayland-0 to wayland-"@ + decimal(MAX_AUTO_DISPLAY as nat)
            + " in "@ + runtime_dir
            + " is taken; set an explicit socket_path to use another"@,
    }
}

fn digit_text(d: u32) -> (text: &'static str)
    requires
        d < 10,
    ensures
        text@ == seq![digit(d as nat)],
{
    proof {
        reveal_strlit("0");
        reveal_strlit("1");
        reveal_strlit("2");
        reveal_strlit("3");
        reveal_strlit("4");
        reveal_strlit("5");
        reveal_strlit("6");
        reveal_strlit("7");
        reveal_strlit("8");
        reveal_strlit("9");
    }
    let text: &'static str = match d {
        0 => "0",
        1 => "1",
        2 => "2",
        3 => "3",
        4 => "4",
        5 => "5",
        6 => "6",
        7 => "7",
        8 => "8",
        _ => "9",
    };
    assert(text@ =~= seq![digit(d as nat)]);
    text
}

fn decimal_text(n: u32) -> (text: String)
    ensures
        text@ == decimal(n as nat),
    decreases n,
{
    if n < 10 {
        digit_text(n).to_owned()
    } else {
        let mut text: String = decimal_text(n / 10);
        text.append(digit_text(n % 10));
        assert(text@ =~= decimal(n as nat / 10).push(digit(n as nat % 10)));
        text
    }
}

impl SocketNameError {
    /// The error in words.
    pub fn message(&self) -> (text: String)
        ensures
            text@ == error_text(self@),
    {
        match self {
            SocketNameError::CannotOpenLock { lock_path, cause } => {
                let mut text: String = "cannot open the lock file ".to_owned();
                text.append(lock_path.as_str());
                text.append(": ");
                text.append(cause.as_str());
                text
            },
            SocketNameError::InUse { socket_path, cause } => {
                let mut text: String = "another compositor is already using ".to_owned();
                text.append(socket_path.as_str());
                text.append(" (");
                text.append(cause.as_str());
                text.append("); set a different socket_path to run a second one");
                text
            },
            SocketNameError::NoRuntimeDir => {
                "XDG_RUNTIME_DIR is not set; cannot auto-name the socket".to_owned()
            },
            SocketNameError::AllTaken { runtime_dir } => {
                let mut text: String = "every socket name from wayland-0 to wayland-".to_owned();
                text.append(decimal_text(MAX_AUTO_DISPLAY).as_str());
                text.append(" in ");
                text.append(runtime_dir.as_str());
                text.append(" is taken; set an explicit socket_path to use another");
                text
            },
        }
    }
}

/// The path of the file whose lock stands for a socket name.
pub fn lock_path(socket_path: &str) -> (path: String)
    ensures
        path@ == lock_name(socket_path@),
        path@ == socket_path@ + seq!['.', 'l', 'o', 'c', 'k'],
{
    let mut path: String = socket_path.to_owned();
    path.append(".lock");
    proof {
        law_lock_file_is_named_after_the_socket(socket_path@);
    }
    path
}

fn candidate_path(runtime_dir: &str, n: u32) -> (path: String)
    ensures
        path@ == candidate(runtime_dir@, n as nat),
{
    let mut path: String = runtime_dir.to_owned();
    path.append("/wayland-");
    path.append(decimal_text(n).as_str());
    path
}

/// What came of trying to lock the file beside a socket name
pub enum LockAttempt<L> {
    /// The file could not be opened
    OpenFailed {
        /// What the system said
        cause: String,
    },
    /// The file was opened, and an exclusive lock asked for without waiting
    Flocked {
        /// The open file, which holds the lock if there is one
        lock: L,
        /// What the request returned: zero if the lock was granted
        status: i32,
        /// What the system says of its last error
        cause: String,
    },
}

/// The lock was granted.
pub open spec fn grants<L>(attempt: LockAttempt<L>) -> bool {
    attempt matches LockAttempt::Flocked { status, .. } && status == 0
}

/// Take exclusive ownership of a socket name
///
/// The name is ours if its lock was granted. The lock is kept for as long as
/// the name is in use.
pub fn claim_socket_name<L>(socket_path: &str, attempt: LockAttempt<L>) -> (claimed: Result<
    L,
    SocketNameError,
>)
    ensures
        claimed is Ok <==> grants(attempt),
        match attempt {
            LockAttempt::OpenFailed { cause } => claimed matches Err(error) && error@ == (
            SocketNameErrorView::CannotOpenLock {
                lock_path: lock_name(socket_path@),
                cause: cause@,
            }),
            LockAttempt::Flocked { lock, status, cause } => if status == 0 {
                claimed == Ok::<L, SocketNameError>(lock)
            } else {
                claimed matches Err(error) && error@ == (SocketNameErrorView::InUse {
                    socket_path: socket_path@,
                    cause: cause@,
                })
            },
        },
{
    match attempt {
        LockAttempt::OpenFailed { cause } => Err(
            SocketNameError::CannotOpenLock { lock_path: lock_path(socket_path), cause },
        ),
        LockAttempt::Flocked { lock, status, cause } => if status != 0 {
            Err(SocketNameError::InUse { socket_path: socket_path.to_owned(), cause })
        } else {
            Ok(lock)
        },
    }
}

/// What a search for a socket name does next
pub enum SearchStep<L> {
    /// Try to claim this name
    Try(String),
    /// This name is claimed
    Claimed {
        /// The path of the socket
        socket_path: String,
        /// What holds the name
        lock: L,
    },
    /// No name could be claimed
    Failed(SocketNameError),
}

/// What a search does next, as a mathematical value.
#[verifier::ext_equal]
pub enum SearchStepView<L> {
    Try(Seq<char>),
    Claimed { socket_path: Seq<char>, lock: L },
    Failed(SocketNameErrorView),
}

impl<L> View for SearchStep<L> {
    type V = SearchStepView<L>;

    open spec fn view(&self) -> SearchStepView<L> {
        match self {
            SearchStep::Try(path) => SearchStepView::Try(path@),
            SearchStep::Claimed { socket_path, lock } => SearchStepView::Claimed {
                socket_path: socket_path@,
                lock: *lock,
            },
            SearchStep::Failed(error) => SearchStepView::Failed(error@),
        }
    }
}

/// A search for a socket name, as a mathematical value.
#[verifier::ext_equal]
pub struct SearchState {
    pub runtime_dir: Seq<char>,
    /// The number of the name that is being tried
    pub n: nat,
}

/// What a search becomes when the name that it tried was claimed, with a
/// lock, or refused, and what it does next.
pub open spec fn search_next<L>(s: SearchState, attempt: Option<L>) -> (
    SearchState,
    SearchStepView<L>,
) {
    match attempt {
        Some(lock) => (
            s,
            SearchStepView::Claimed { socket_path: candidate(s.runtime_dir, s.n), lock },
        ),
        None => if s.n < MAX_AUTO_DISPLAY {
            (
                SearchState { n: s.n + 1, ..s },
                SearchStepView::Try(candidate(s.runtime_dir, s.n + 1)),
            )
        } else {
            (
                s,
                SearchStepView::Failed(
                    SocketNameErrorView::AllTaken { runtime_dir: s.runtime_dir },
                ),
            )
        },
    }
}

/// A search for a socket name that nobody else is using.
pub struct NameSearch {
    runtime_dir: String,
    n: u32,
}

impl View for NameSearch {
    type V = SearchState;

    closed spec fn view(&self) -> SearchState {
        SearchState { runtime_dir: self.runtime_dir@, n: self.n as nat }
    }
}

impl NameSearch {
    /// Begin a search in the directory for sockets, if one is known, and give
    /// the first name to try.
    pub fn start(runtime_dir: Option<String>) -> (started: Result<
        (NameSearch, String),
        SocketNameError,
    >)
        ensures
            match runtime_dir {
                Some(dir) => {
                    &&& started matches Ok((search, path))
                    &&& search@ == (SearchState { runtime_dir: dir@, n: 0 })
                    &&& path@ == candidate(dir@, 0)
                    &&& path@ == dir@ + seq!['/', 'w', 'a', 'y', 'l', 'a', 'n', 'd', '-', '0']
                },
                None => started matches Err(error) && error@ is NoRuntimeDir,
            },
    {
        match runtime_dir {
            Some(dir) => {
                let path: String = candidate_path(dir.as_str(), 0);
                proof {
                    law_name_is_spelled_out(dir@, 0);
                }
                Ok((NameSearch { runtime_dir: dir, n: 0 }, path))
            },
            None => Err(SocketNameError::NoRuntimeDir),
        }
    }

    /// Take in what came of trying to claim the last name, and go on.
    pub fn step<L>(&mut self, attempt: Result<L, SocketNameError>) -> (step: SearchStep<L>)
        ensures
            (final(self)@, step@) == search_next(
                old(self)@,
                match attempt {
                    Ok(lock) => Some(lock),
                    Err(_) => None,
                },
            ),
            final(self)@.runtime_dir == old(self)@.runtime_dir,
            step is Claimed <==> attempt is Ok,
            step is Try <==> attempt is Err && old(self)@.n < 32,
            match step {
                SearchStep::Try(path) => {
                    let n = old(self)@.n + 1;
                    &&& final(self)@.n == n
                    &&& path@ == old(self)@.runtime_dir + seq![
                        '/', 'w', 'a', 'y', 'l', 'a', 'n', 'd', '-',
                    ] + (if n < 10 {
                            seq![('0' as int + n) as char]
                        } else {
                            seq![('0' as int + n / 10) as char, ('0' as int + n % 10) as char]
                        })
                },
                SearchStep::Claimed { socket_path, lock } => {
                    let n = old(self)@.n;
                    &&& attempt == Ok::<L, SocketNameError>(lock)
                    &&& n <= 32 ==> socket_path@ == old(self)@.runtime_dir + seq![
                        '/', 'w', 'a', 'y', 'l', 'a', 'n', 'd', '-',
                    ] + (if n < 10 {
                            seq![('0' as int + n) as char]
                        } else {
                            seq![('0' as int + n / 10) as char, ('0' as int + n % 10) as char]
                        })
                },
                SearchStep::Failed(error) => {
                    &&& error matches SocketNameError::AllTaken { runtime_dir }
                    &&& runtime_dir@ == old(self)@.runtime_dir
                },
            },
    {
        proof {
            law_name_is_spelled_out(self@.runtime_dir, self@.n);
            law_name_is_spelled_out(self@.runtime_dir, self@.n + 1);
        }
        match attempt {
            Ok(lock) => SearchStep::Claimed {
                socket_path: candidate_path(self.runtime_dir.as_str(), self.n),
                lock,
            },
            Err(_) => if self.n < MAX_AUTO_DISPLAY {
                self.n = self.n + 1;
                SearchStep::Try(candidate_path(self.runtime_dir.as_str(), self.n))
            } else {
                SearchStep::Failed(
                    SocketNameError::AllTaken { runtime_dir: self.runtime_dir.clone() },
                )
            },
        }
    }
}

/// A search after some attempts, and what it does next.
pub open spec fn search_run<L>(runtime_dir: Seq<char>, attempts: Seq<Option<L>>) -> (
    SearchState,
    SearchStepView<L>,
)
    decreases attempts.len(),
{
    if attempts.len() == 0 {
        (SearchState { runtime_dir, n: 0 }, SearchStepView::Try(candidate(runtime_dir, 0)))
    } else {
        search_next(search_run(runtime_dir, attempts.drop_last()).0, attempts.last())
    }
}

/// The names are tried in order, from `wayland-0` to `wayland-32`, and each is
/// tried once. The first that is not refused is claimed, with its lock. If all
/// are refused, the search fails.
pub proof fn law_first_free_name_is_claimed<L>(runtime_dir: Seq<char>, attempts: Seq<Option<L>>)
    requires
        attempts.len() <= MAX_AUTO_DISPLAY + 1,
        forall|i: int| 0 <= i < attempts.len() - 1 ==> #[trigger] attempts[i] is None,
    ensures
        ({
            let k = attempts.len();
            let step = search_run(runtime_dir, attempts).1;
            if k > 0 && attempts.last() is Some {
                step == (SearchStepView::Claimed {
                    socket_path: candidate(runtime_dir, (k - 1) as nat),
                    lock: attempts.last()->Some_0,
                })
            } else if k <= MAX_AUTO_DISPLAY {
                step == SearchStepView::<L>::Try(candidate(runtime_dir, k))
            } else {
                step == SearchStepView::<L>::Failed(SocketNameErrorView::AllTaken { runtime_dir })
            }
        }),
{
    if attempts.len() > 0 {
        lemma_refusals_count_up(runtime_dir, attempts.drop_last());
    }
}

/// After some refusals, that many names have been tried.
proof fn lemma_refusals_count_up<L>(runtime_dir: Seq<char>, attempts: Seq<Option<L>>)
    requires
        attempts.len() <= MAX_AUTO_DISPLAY,
        forall|i: int| 0 <= i < attempts.len() ==> #[trigger] attempts[i] is None,
    ensures
        search_run(runtime_dir, attempts).0 == (SearchState { runtime_dir, n: attempts.len() }),
    decreases attempts.len(),
{
    if attempts.len() > 0 {
        lemma_refusals_count_up(runtime_dir, attempts.drop_last());
    }
}

/// Different numbers have different decimal notations.
proof fn lemma_decimal_is_injective(i: nat, j: nat)
    requires
        decimal(i) == decimal(j),
    ensures
        i == j,
    decreases i,
{
    let a = decimal(i);
    let b = decimal(j);
    lemma_decimal_length(i);
    lemma_decimal_length(j);
    assert(a.last() == digit(i % 10));
    assert(b.last() == digit(j % 10));
    assert(i % 10 == j % 10);
    if i >= 10 {
        assert(a.drop_last() =~= decimal(i / 10));
        assert(b.drop_last() =~= decimal(j / 10));
        lemma_decimal_is_injective(i / 10, j / 10);
    }
}

proof fn lemma_decimal_length(n: nat)
    ensures
        n < 10 <==> decimal(n).len() == 1,
        decimal(n).len() >= 1,
    decreases n,
{
    if n >= 10 {
        lemma_decimal_length(n / 10);
    }
}

/// Different numbers give different names: no name is tried twice.
pub proof fn law_candidates_are_distinct(runtime_dir: Seq<char>, i: nat, j: nat)
    requires
        candidate(runtime_dir, i) == candidate(runtime_dir, j),
    ensures
        i == j,
{
    let front = (runtime_dir + "/wayland-"@).len() as int;
    assert(candidate(runtime_dir, i).skip(front) =~= decimal(i));
    assert(candidate(runtime_dir, j).skip(front) =~= decimal(j));
    lemma_decimal_is_injective(i, j);
}

/// Different names have different lock files: to lock one claims no other.
pub proof fn law_lock_belongs_to_one_name(one: Seq<char>, other: Seq<char>)
    requires
        lock_name(one) == lock_name(other),
    ensures
        one == other,
{
    assert(one.len() == other.len()) by {
        assert(lock_name(one).len() == one.len() + ".lock"@.len());
        assert(lock_name(other).len() == other.len() + ".lock"@.len());
    }
    assert(lock_name(one).take(one.len() as int) =~= one);
    assert(lock_name(other).take(other.len() as int) =~= other);
}

/// A number is written with the digits from '0' to '9': one digit for a number
/// below ten, else the number without its last digit, and then that digit.
pub proof fn law_number_is_written_digit_by_digit(n: nat)
    ensures
        n < 10 ==> decimal(n) == seq![('0' as int + n) as char],
        n >= 10 ==> decimal(n) == decimal(n / 10) + seq![('0' as int + n % 10) as char],
{
    lemma_digit_is_its_code(n % 10);
    if n < 10 {
        assert(decimal(n) =~= seq![('0' as int + n) as char]);
    } else {
        assert(decimal(n) =~= decimal(n / 10) + seq![('0' as int + n % 10) as char]);
    }
}

/// The digits have consecutive codes.
proof fn lemma_digit_is_its_code(d: nat)
    requires
        d < 10,
    ensures
        digit(d) == ('0' as int + d) as char,
{
    let all = seq!['0', '1', '2', '3', '4', '5', '6', '7', '8', '9'];
    assert(all[0] == '0' && all[1] == '1' && all[2] == '2' && all[3] == '3' && all[4] == '4');
    assert(all[5] == '5' && all[6] == '6' && all[7] == '7' && all[8] == '8' && all[9] == '9');
}

/// Every name that is tried is the directory, a slash, the word `wayland`, a
/// dash and the number of the name, and nothing else.
pub proof fn law_name_is_spelled_out(runtime_dir: Seq<char>, n: nat)
    ensures
        ({
            let front = runtime_dir + seq!['/', 'w', 'a', 'y', 'l', 'a', 'n', 'd', '-'];
            let units = seq![('0' as int + n % 10) as char];
            &&& candidate(runtime_dir, n) == front + decimal(n)
            &&& n < 10 ==> candidate(runtime_dir, n) == front + units
            &&& 10 <= n < 100 ==> candidate(runtime_dir, n) == front + (seq![
                ('0' as int + n / 10) as char,
            ] + units)
        }),
{
    reveal_strlit("/wayland-");
    let front = runtime_dir + seq!['/', 'w', 'a', 'y', 'l', 'a', 'n', 'd', '-'];
    assert("/wayland-"@ =~= seq!['/', 'w', 'a', 'y', 'l', 'a', 'n', 'd', '-']);
    assert(candidate(runtime_dir, n) =~= front + decimal(n));
    law_number_is_written_digit_by_digit(n);
    law_number_is_written_digit_by_digit(n / 10);
}

/// The lock file is named like the socket, with `.lock` behind it.
pub proof fn law_lock_file_is_named_after_the_socket(socket_path: Seq<char>)
    ensures
        lock_name(socket_path) == socket_path + seq!['.', 'l', 'o', 'c', 'k'],
{
    reveal_strlit(".lock");
    assert(".lock"@ =~= seq!['.', 'l', 'o', 'c', 'k']);
}

/// A lock is granted if and only if the file was opened and the request for
/// the lock returned zero.
pub proof fn law_lock_is_granted_by_status_zero<L>(lock: L, status: i32, cause: String)
    ensures
        grants(LockAttempt::Flocked { lock, status, cause }) <==> status == 0,
        !grants(LockAttempt::<L>::OpenFailed { cause }),
{
}

/// A search ends with the name that it tried once that is claimed. Else it
/// goes on to the next number, up to 32, and behind that it fails.
pub proof fn law_search_goes_on_to_the_next_number<L>(s: SearchState, attempt: Option<L>)
    ensures
        ({
            let (t, step) = search_next(s, attempt);
            &&& t.runtime_dir == s.runtime_dir
            &&& attempt is None && s.n < 32 ==> {
                &&& t.n == s.n + 1
                &&& step == SearchStepView::<L>::Try(
                    s.runtime_dir + seq!['/', 'w', 'a', 'y', 'l', 'a', 'n', 'd', '-'] + decimal(
                        s.n + 1,
                    ),
                )
            }
            &&& attempt is None && s.n >= 32 ==> step == SearchStepView::<L>::Failed(
                SocketNameErrorView::AllTaken { runtime_dir: s.runtime_dir },
            )
            &&& attempt matches Some(lock) ==> step == (SearchStepView::Claimed {
                socket_path: s.runtime_dir + seq![
                    '/', 'w', 'a', 'y', 'l', 'a', 'n', 'd', '-',
                ] + decimal(s.n),
                lock,
            })
        }),
{
    law_name_is_spelled_out(s.runtime_dir, s.n);
    law_name_is_spelled_out(s.runtime_dir, s.n + 1);
}

/// After `k` refusals a search tries the name of number `k`, spelled out in
/// full, for every directory and for every number up to 32.
pub proof fn law_kth_name_tried_is_number_k<L>(runtime_dir: Seq<char>, refusals: Seq<Option<L>>)
    requires
        refusals.len() <= 32,
        forall|i: int| 0 <= i < refusals.len() ==> #[trigger] refusals[i] is None,
    ensures
        ({
            let k = refusals.len();
            search_run(runtime_dir, refusals).1 == SearchStepView::<L>::Try(
                runtime_dir + seq!['/', 'w', 'a', 'y', 'l', 'a', 'n', 'd', '-'] + (if k < 10 {
                    seq![('0' as int + k) as char]
                } else {
                    seq![('0' as int + k / 10) as char, ('0' as int + k % 10) as char]
                }),
            )
        }),
{
    law_first_free_name_is_claimed(runtime_dir, refusals);
    law_name_is_spelled_out(runtime_dir, refusals.len());
}

/// An error names what it is about in full, and repeats what the system said.
pub proof fn law_error_tells_what_it_is_about(path: Seq<char>, cause: Seq<char>)
    ensures
        error_text(SocketNameErrorView::CannotOpenLock { lock_path: path, cause })
            == "cannot open the lock file "@ + path + ": "@ + cause,
        error_text(SocketNameErrorView::InUse { socket_path: path, cause })
            == "another compositor is already using "@ + path + " ("@ + cause
            + "); set a different socket_path to run a second one"@,
        error_text(SocketNameErrorView::NoRuntimeDir)
            == "XDG_RUNTIME_DIR is not set; cannot auto-name the socket"@,
        error_text(SocketNameErrorView::AllTaken { runtime_dir: path })
            == "every socket name from wayland-0 to wayland-"@ + seq!['3', '2'] + " in "@ + path
            + " is taken; set an explicit socket_path to use another"@,
{
    law_number_is_written_digit_by_digit(32);
    law_number_is_written_digit_by_digit(3);
    assert(decimal(32) =~= seq!['3', '2']);
}

} // verus!
