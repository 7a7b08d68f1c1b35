use vstd::prelude::*;

verus! {

/// The interval in seconds that a read finds where none was ever stored.
pub const DEFAULT_INTERVAL: u32 = 30;

/// The greatest interval in seconds that can be stored.
pub const MAX_INTERVAL: u32 = 0x7fff_ffff;

/// The two administrators.
#[derive(Clone, Copy, PartialEq, Eq, Structural, Debug)]
pub struct Admins {
    pub admin1: i64,
    pub admin2: i64,
}

/// What every part of the bot shares: who the administrators are, how long
/// to wait between two announcements of one user, and how many seconds one
/// unit of the interval has when it is shown or typed.
///
/// Administrators and interval are empty at first. The administrators are
/// stored once and stay. The interval is filled by `init_interval`, or with
/// `DEFAULT_INTERVAL` by the first read, and changed by `set_interval` from
/// then on.
#[derive(Clone, Copy, Debug)]
pub struct Settings {
    pub admins: Option<Admins>,
    pub interval: Option<u32>,
    pub unit: u32,
}

impl Settings {
    /// Valid settings have a unit of at least one second and an interval, if
    /// any, that can be stored.
    pub open spec fn wf(&self) -> bool {
        &&& self.unit >= 1
        &&& self.interval matches Some(v) ==> v <= MAX_INTERVAL
    }

    /// What a read of the interval finds.
    pub open spec fn current_interval(&self) -> u32 {
        match self.interval {
            Some(v) => v,
            None => DEFAULT_INTERVAL,
        }
    }

    /// Whether `user_id` is one of the stored administrators.
    pub open spec fn has_admin(&self, user_id: i64) -> bool {
        match self.admins {
            Some(a) => a.admin1 == user_id || a.admin2 == user_id,
            None => false,
        }
    }

    /// Settings with nothing stored yet and `unit` seconds to the unit.
    pub fn new(unit: u32) -> (s: Settings)
        requires
            unit >= 1,
        ensures
            s.wf(),
            s.admins is None,
            s.interval is None,
            s.unit == unit,
    {
        Settings { admins: None, interval: None, unit }
    }
}

/// Whether `user_id` is an administrator. Nobody is one before
/// `set_admins` has stored them.
pub fn is_admin(settings: &Settings, user_id: i64) -> (r: bool)
    ensures
        r == settings.has_admin(user_id),
{
    match settings.admins {
        Some(a) => a.admin1 == user_id || a.admin2 == user_id,
        None => false,
    }
}

/// Stores the two administrators. This works once: a second call fails and
/// changes nothing.
pub fn set_admins(settings: &mut Settings, admin1: i64, admin2: i64) -> (r: Result<(), ()>)
    ensures
        r.is_ok() == (old(settings).admins is None),
        r.is_ok() ==> final(settings).admins == Some(Admins { admin1, admin2 }),
        r.is_err() ==> final(settings).admins == old(settings).admins,
        final(settings).interval == old(settings).interval,
        final(settings).unit == old(settings).unit,
{
    if settings.admins.is_some() {
        return Err(());
    }
    settings.admins = Some(Admins { admin1, admin2 });
    Ok(())
}

/// Stores the interval for the first time. It fails, and changes nothing,
/// where an interval is stored already or `v` is negative.
pub fn init_interval(settings: &mut Settings, v: i32) -> (r: Result<(), ()>)
    ensures
        r.is_ok() == (old(settings).interval is None && v >= 0),
        r.is_ok() ==> final(settings).interval == Some(v as u32),
        r.is_err() ==> final(settings).interval == old(settings).interval,
        final(settings).admins == old(settings).admins,
        final(settings).unit == old(settings).unit,
        old(settings).wf() ==> final(settings).wf(),
{
    if settings.interval.is_some() || v < 0 {
        return Err(());
    }
    settings.interval = Some(v as u32);
    Ok(())
}

/// Changes the interval to `v` seconds. It fails, and changes nothing, where
/// no interval was stored or read before, or `v` is negative.
pub fn set_interval(settings: &mut Settings, v: i32) -> (r: Result<(), ()>)
    ensures
        r.is_ok() == (old(settings).interval is Some && v >= 0),
        r.is_ok() ==> final(settings).interval == Some(v as u32),
        r.is_err() ==> final(settings).interval == old(settings).interval,
        final(settings).admins == old(settings).admins,
        final(settings).unit == old(settings).unit,
        old(settings).wf() ==> final(settings).wf(),
{
    if settings.interval.is_none() || v < 0 {
        return Err(());
    }
    settings.interval = Some(v as u32);
    Ok(())
}

/// Reads the interval in seconds. Where none is stored, `DEFAULT_INTERVAL`
/// is stored by this read and returned.
pub fn interval(settings: &mut Settings) -> (r: u32)
    ensures
        r == old(settings).current_interval(),
        final(settings).interval == Some(r),
        final(settings).admins == old(settings).admins,
        final(settings).unit == old(settings).unit,
        old(settings).wf() ==> final(settings).wf(),
{
    match settings.interval {
        Some(v) => v,
        None => {
            settings.interval = Some(DEFAULT_INTERVAL);
            DEFAULT_INTERVAL
        },
    }
}

} // verus!
