//! Slowing down logins: how many attempts a window of five minutes takes, and
//! how long to wait for the next one.

use crate::clock::{on_calendar, second_of, Instant, LAST_SECOND, NANOS};
use crate::error::{plain, ApiError, ErrorView, Status};
use vstd::prelude::*;

verus! {

/// The length of a window in nanoseconds.
pub const WINDOW: i128 = 300_000_000_000;

/// The attempts that one source may make in a window.
pub const IP_ATTEMPTS: i32 = 20;

/// The failures that one address may have in a window.
pub const EMAIL_FAILURES: i32 = 3;

/// How many attempts a window has seen, and when it began.
#[derive(Clone, Copy, Debug, PartialEq, Eq, Structural)]
pub struct Window {
    pub attempts: i32,
    pub started_at: Instant,
}

/// The window with one more attempt: one that is over, or was never there,
/// begins anew.
pub open spec fn counted(stored: Option<Window>, now: Instant) -> Window {
    match stored {
        Some(window) if window.started_at > now - WINDOW => Window {
            attempts: (window.attempts + 1) as i32,
            started_at: window.started_at,
        },
        _ => Window { attempts: 1, started_at: now },
    }
}

/// Counts an attempt of a source.
pub fn count_ip_attempt(stored: Option<Window>, now: Instant) -> (r: Window)
    requires
        on_calendar(now),
        stored is Some ==> stored->0.attempts < i32::MAX,
    ensures
        r == counted(stored, now),
{
    match stored {
        Some(window) => {
            if window.started_at > now - WINDOW {
                Window { attempts: window.attempts + 1, started_at: window.started_at }
            } else {
                Window { attempts: 1, started_at: now }
            }
        },
        None => Window { attempts: 1, started_at: now },
    }
}

/// The window of an address, whose count goes no further than the first
/// attempt too many.
pub open spec fn email_counted(stored: Option<Window>, now: Instant) -> Window {
    match stored {
        Some(window) => counted(
            Some(
                Window {
                    attempts: if window.attempts < EMAIL_FAILURES {
                        window.attempts
                    } else {
                        EMAIL_FAILURES
                    },
                    started_at: window.started_at,
                },
            ),
            now,
        ),
        None => counted(None, now),
    }
}

/// Counts an attempt with an address.
pub fn count_email_attempt(stored: Option<Window>, now: Instant) -> (r: Window)
    requires
        on_calendar(now),
    ensures
        r == email_counted(stored, now),
{
    match stored {
        Some(window) => {
            let attempts: i32 = if window.attempts < EMAIL_FAILURES {
                window.attempts
            } else {
                EMAIL_FAILURES
            };
            count_ip_attempt(Some(Window { attempts, started_at: window.started_at }), now)
        },
        None => count_ip_attempt(None, now),
    }
}

/// The whole seconds until the window ends, and one at least.
pub open spec fn wait_seconds(window_started_at: Instant, now: Instant) -> int {
    let left = window_started_at + 300_000_000_000 - now;
    if left >= 1_000_000_000 {
        left / 1_000_000_000
    } else {
        1
    }
}

/// The window ends within the calendar.
pub open spec fn window_fits(window_started_at: Instant) -> bool {
    on_calendar(window_started_at) && second_of(window_started_at) + 300 <= LAST_SECOND
}

/// The whole seconds until the window ends, and one at least.
pub fn retry_after_seconds(window_started_at: Instant, now: Instant) -> (r: u64)
    requires
        window_fits(window_started_at),
        on_calendar(now),
    ensures
        r == wait_seconds(window_started_at, now),
{
    let left: i128 = window_started_at + WINDOW - now;
    if left >= NANOS {
        (left / NANOS) as u64
    } else {
        1
    }
}

/// The refusal of one attempt too many.
pub open spec fn throttled(message: Seq<char>, window_started_at: Instant, now: Instant) -> ErrorView {
    ErrorView {
        status: Status::TooManyRequests,
        message,
        retry_after: Some(wait_seconds(window_started_at, now) as u64),
    }
}

/// A source that made more than twenty attempts in its window waits.
pub open spec fn ip_throttle(attempts: i32, window_started_at: Instant, now: Instant) -> Result<
    (),
    ErrorView,
> {
    if attempts > 20 {
        Err(throttled("too many login attempts"@, window_started_at, now))
    } else {
        Ok(())
    }
}

/// Refuses a source that has made too many attempts in its window, this one
/// counted.
pub fn check_ip_attempts(attempts: i32, window_started_at: Instant, now: Instant) -> (r: Result<
    (),
    ApiError,
>)
    requires
        window_fits(window_started_at),
        on_calendar(now),
    ensures
        plain(r) == ip_throttle(attempts, window_started_at, now),
{
    if attempts > IP_ATTEMPTS {
        return Err(
            ApiError::too_many_requests(
                "too many login attempts",
                retry_after_seconds(window_started_at, now),
            ),
        );
    }
    Ok(())
}

/// An address with more than three failures in its window waits.
pub open spec fn email_throttle(failures: i32, window_started_at: Instant, now: Instant) -> Result<
    (),
    ErrorView,
> {
    if failures > 3 {
        Err(throttled("too many failed login attempts"@, window_started_at, now))
    } else {
        Ok(())
    }
}

/// Refuses an address with too many failures in its window; an attempt counts
/// as a failure until it succeeds.
pub fn check_email_failures(failures: i32, window_started_at: Instant, now: Instant) -> (r: Result<
    (),
    ApiError,
>)
    requires
        window_fits(window_started_at),
        on_calendar(now),
    ensures
        plain(r) == email_throttle(failures, window_started_at, now),
{
    if failures > EMAIL_FAILURES {
        return Err(
            ApiError::too_many_requests(
                "too many failed login attempts",
                retry_after_seconds(window_started_at, now),
            ),
        );
    }
    Ok(())
}

/// The window after attempts at the given times, from where nothing is stored.
pub open spec fn after_attempts(times: Seq<Instant>) -> Option<Window>
    decreases times.len(),
{
    if times.len() == 0 {
        None
    } else {
        Some(counted(after_attempts(times.drop_last()), times.last()))
    }
}

/// The window of an address after attempts at the given times.
pub open spec fn after_email_attempts(times: Seq<Instant>) -> Option<Window>
    decreases times.len(),
{
    if times.len() == 0 {
        None
    } else {
        Some(email_counted(after_email_attempts(times.drop_last()), times.last()))
    }
}

/// The times follow a first one within its window.
pub open spec fn within_a_window(times: Seq<Instant>) -> bool {
    &&& times.len() > 0
    &&& forall|i: int| 0 <= i < times.len() ==> #[trigger] times[i] < times[0] + WINDOW
}

/// Of the attempts that one source makes within a window, the first twenty
/// pass, and none after them.
pub proof fn sources_have_twenty_attempts_a_window(times: Seq<Instant>)
    requires
        within_a_window(times),
        times.len() <= i32::MAX,
    ensures
        after_attempts(times) == Some(
            Window { attempts: times.len() as i32, started_at: times[0] },
        ),
        ip_throttle(times.len() as i32, times[0], times.last()) is Ok <==> times.len() <= 20,
    decreases times.len(),
{
    let earlier = times.drop_last();
    assert(times[times.len() - 1] < times[0] + WINDOW);
    if earlier.len() > 0 {
        assert(within_a_window(earlier)) by {
            assert forall|i: int| 0 <= i < earlier.len() implies #[trigger] earlier[i] < earlier[0]
                + WINDOW by {
                assert(earlier[i] == times[i]);
            }
        }
        sources_have_twenty_attempts_a_window(earlier);
    }
}

/// Of the attempts with one address within a window the first three pass, and
/// none after them, unless one that succeeds makes the hub forget them.
pub proof fn addresses_have_three_attempts_a_window(times: Seq<Instant>)
    requires
        within_a_window(times),
    ensures
        after_email_attempts(times) is Some,
        after_email_attempts(times)->0.started_at == times[0],
        after_email_attempts(times)->0.attempts == (if times.len() <= 4 {
            times.len() as int
        } else {
            4
        }),
        email_throttle(after_email_attempts(times)->0.attempts, times[0], times.last()) is Ok
            <==> times.len() <= 3,
    decreases times.len(),
{
    let earlier = times.drop_last();
    assert(times[times.len() - 1] < times[0] + WINDOW);
    if earlier.len() > 0 {
        assert(within_a_window(earlier)) by {
            assert forall|i: int| 0 <= i < earlier.len() implies #[trigger] earlier[i] < earlier[0]
                + WINDOW by {
                assert(earlier[i] == times[i]);
            }
        }
        addresses_have_three_attempts_a_window(earlier);
    }
}

/// An attempt after the end of the window is the first of a new one.
pub proof fn windows_end(stored: Window, now: Instant)
    requires
        now >= stored.started_at + WINDOW,
    ensures
        counted(Some(stored), now) == (Window { attempts: 1, started_at: now }),
        email_counted(Some(stored), now) == (Window { attempts: 1, started_at: now }),
        ip_throttle(1, now, now) is Ok,
        email_throttle(1, now, now) is Ok,
{
}

/// A throttled caller is told to wait at least a second, and from within the
/// window never longer than the window.
pub proof fn waits_are_bounded(window_started_at: Instant, now: Instant)
    ensures
        1 <= wait_seconds(window_started_at, now),
        now >= window_started_at ==> wait_seconds(window_started_at, now) <= 300,
{
}

/// Who is throttled is told when the window ends: never less than a second,
/// and never past its end, up to a part of a second.
pub proof fn waits_end_with_the_window(started: Instant, now: Instant, attempts: i32, failures: i32)
    requires
        started <= now,
    ensures
        ip_throttle(attempts, started, now) is Err <==> attempts > 20,
        email_throttle(failures, started, now) is Err <==> failures > 3,
        ip_throttle(attempts, started, now) matches Err(e) ==> e.status == Status::TooManyRequests
            && e.retry_after is Some && e.retry_after->0 == wait_seconds(started, now),
        email_throttle(failures, started, now) matches Err(e) ==> e.status
            == Status::TooManyRequests && e.retry_after is Some && e.retry_after->0
            == wait_seconds(started, now),
        now + wait_seconds(started, now) * 1_000_000_000 <= started + 300_000_000_000 || wait_seconds(
            started,
            now,
        ) == 1,
        now + (wait_seconds(started, now) + 1) * 1_000_000_000 > started + 300_000_000_000,
{
}

/// An attempt within the window counts on in that window, and one after it
/// begins a new one.
pub proof fn attempts_count_on_within_the_window(window: Window, now: Instant)
    requires
        0 <= window.attempts < i32::MAX,
    ensures
        counted(None, now) == (Window { attempts: 1, started_at: now }),
        now < window.started_at + 300_000_000_000 ==> counted(Some(window), now).started_at
            == window.started_at && counted(Some(window), now).attempts == window.attempts + 1,
        now < window.started_at + 300_000_000_000 && window.attempts <= 3 ==> email_counted(
            Some(window),
            now,
        ) == counted(Some(window), now),
        email_counted(Some(window), now).attempts <= 4,
        now >= window.started_at + 300_000_000_000 ==> counted(Some(window), now) == (Window {
            attempts: 1,
            started_at: now,
        }) && email_counted(Some(window), now) == (Window { attempts: 1, started_at: now }),
        email_counted(None, now) == counted(None, now),
{
}

} // verus!
