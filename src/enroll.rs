//! Enrollment: pooling the templates of several capture rounds into a profile.
use vstd::prelude::*;
use vstd::string::StringExecFns;

verus! {

/// Capture rounds in one enrollment.
pub const ENROLLMENT_CAPTURES: usize = 3;

/// Frames captured per round, and per authentication attempt.
pub const FRAMES_PER_CAPTURE: usize = 15;

/// Fewest templates that make a usable profile.
pub const MIN_ENROLL_TEMPLATES: usize = 10;

/// A user's enrolled templates, in capture order, with the enrollment time in
/// seconds since the Unix epoch.
pub struct FaceProfile {
    pub username: String,
    pub face_templates: Vec<Vec<u8>>,
    pub created_at: u64,
}

/// Why an enrollment produced no profile.
#[derive(Debug, PartialEq, Eq, Structural)]
pub enum EnrollError {
    /// Fewer than `MIN_ENROLL_TEMPLATES` templates were captured over all rounds.
    InsufficientFrames,
}

/// Builds the profile from all templates of all rounds, or refuses when there
/// are too few of them.
pub fn finish_enrollment(username: String, templates: Vec<Vec<u8>>, created_at: u64) -> (r: Result<
    FaceProfile,
    EnrollError,
>)
    ensures
        templates@.len() < MIN_ENROLL_TEMPLATES <==> r is Err,
        r matches Err(e) ==> e == EnrollError::InsufficientFrames,
        r matches Ok(p) ==> p.username@ == username@ && p.face_templates@ == templates@
            && p.created_at == created_at,
{
    if templates.len() < MIN_ENROLL_TEMPLATES {
        return Err(EnrollError::InsufficientFrames);
    }
    Ok(FaceProfile { username, face_templates: templates, created_at })
}

/// Adds the templates of one capture round after those gathered so far.
pub fn add_round(all: &mut Vec<Vec<u8>>, round: Vec<Vec<u8>>)
    ensures
        final(all)@ == old(all)@ + round@,
{
    let mut round = round;
    all.append(&mut round);
}

/// The name to authenticate: the explicit one, else the acting identity given
/// by the authentication framework, else the login name, else "unknown".
pub fn resolve_username(explicit: Option<String>, acting: Option<String>, login: Option<String>) -> (r:
    String)
    ensures
        explicit matches Some(s) ==> r@ == s@,
        explicit is None ==> (acting matches Some(s) ==> r@ == s@),
        explicit is None && acting is None ==> (login matches Some(s) ==> r@ == s@),
        explicit is None && acting is None && login is None ==> r@ == "unknown"@,
{
    match explicit {
        Some(s) => s,
        None => match acting {
            Some(s) => s,
            None => match login {
                Some(s) => s,
                None => {
                    proof {
                        reveal_strlit("unknown");
                    }
                    "unknown".to_string()
                },
            },
        },
    }
}

/// Relies on `SystemTime::now` and `SystemTime::duration_since(UNIX_EPOCH)`:
/// whole seconds since the epoch, or 0 for a clock set before it.
#[verifier::external_body]
fn unix_time_secs() -> (r: u64) {
    std::time::SystemTime::now().duration_since(std::time::UNIX_EPOCH).map(|d| d.as_secs()).unwrap_or(0)
}

/// The character of a decimal digit.
pub open spec fn digit_char(d: nat) -> char {
    if d == 0 {
        '0'
    } else if d == 1 {
        '1'
    } else if d == 2 {
        '2'
    } else if d == 3 {
        '3'
    } else if d == 4 {
        '4'
    } else if d == 5 {
        '5'
    } else if d == 6 {
        '6'
    } else if d == 7 {
        '7'
    } else if d == 8 {
        '8'
    } else {
        '9'
    }
}

/// Decimal digits of `n`, most significant first, without a sign or leading zeros.
pub open spec fn decimal_text(n: nat) -> Seq<char>
    decreases n,
{
    if n < 10 {
        seq![digit_char(n)]
    } else {
        decimal_text(n / 10).push(digit_char(n % 10))
    }
}

fn digit_str(d: u64) -> (r: &'static str)
    requires
        d < 10,
    ensures
        r@ == seq![digit_char(d as nat)],
{
    proof {
        reveal_strlit("0");
        reveal_strlit("1");
        reveal_strlit("2");
        reveal_strlit("3");
        reveal_strlit("4");
        reveal_strlit("5");
        reveal_strlit("6");
        reveal_strlit("7");
        reveal_strlit("8");
        reveal_strlit("9");
    }
    if d == 0 {
        "0"
    } else if d == 1 {
        "1"
    } else if d == 2 {
        "2"
    } else if d == 3 {
        "3"
    } else if d == 4 {
        "4"
    } else if d == 5 {
        "5"
    } else if d == 6 {
        "6"
    } else if d == 7 {
        "7"
    } else if d == 8 {
        "8"
    } else {
        "9"
    }
}

fn push_decimal(s: &mut String, n: u64)
    ensures
        final(s)@ == old(s)@ + decimal_text(n as nat),
    decreases n,
{
    if n >= 10 {
        push_decimal(s, n / 10);
    }
    s.append(digit_str(n % 10));
    proof {
        if n >= 10 {
            assert(old(s)@ + decimal_text(n as nat) =~= old(s)@ + decimal_text((n / 10) as nat) + seq![
                digit_char((n % 10) as nat),
            ]);
        }
    }
}

/// The decimal text of a number of seconds.
pub fn timestamp_text(secs: u64) -> (r: String)
    ensures
        r@ == decimal_text(secs as nat),
{
    let mut s = String::new();
    push_decimal(&mut s, secs);
    proof {
        assert(seq![] + decimal_text(secs as nat) =~= decimal_text(secs as nat));
    }
    s
}

/// The current time as decimal seconds since the Unix epoch.
pub fn get_timestamp() -> (r: String)
    ensures
        exists|s: u64| r@ == decimal_text(s as nat),
{
    let secs = unix_time_secs();
    timestamp_text(secs)
}

/// Builds the profile as `finish_enrollment` does, stamped with the current time.
pub fn finish_enrollment_now(username: String, templates: Vec<Vec<u8>>) -> (r: Result<
    FaceProfile,
    EnrollError,
>)
    ensures
        templates@.len() < MIN_ENROLL_TEMPLATES <==> r is Err,
        r matches Err(e) ==> e == EnrollError::InsufficientFrames,
        r matches Ok(p) ==> p.username@ == username@ && p.face_templates@ == templates@,
{
    let now = unix_time_secs();
    finish_enrollment(username, templates, now)
}

} // verus!
