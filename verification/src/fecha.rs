//! Calendar arithmetic: dates, times of day and instants counted in seconds
//! from the first of January of 1970.
//!
//! Leap years follow the Gregorian calendar.

use vstd::prelude::*;
use crate::registro::Error;

verus! {

/// The months of the year, January first.
#[derive(Debug, Clone, Copy, PartialEq, Eq, Structural)]
pub enum Month {
    January,
    February,
    March,
    April,
    May,
    June,
    July,
    August,
    September,
    October,
    November,
    December,
}

impl Month {
    /// Position of the month in the year, from 0 (January) to 11 (December).
    pub open spec fn indice(self) -> int {
        match self {
            Month::January => 0,
            Month::February => 1,
            Month::March => 2,
            Month::April => 3,
            Month::May => 4,
            Month::June => 5,
            Month::July => 6,
            Month::August => 7,
            Month::September => 8,
            Month::October => 9,
            Month::November => 10,
            Month::December => 11,
        }
    }

    /// The month at position `i` of the year (0 is January).
    pub open spec fn de_indice(i: int) -> Month {
        if i == 0 {
            Month::January
        } else if i == 1 {
            Month::February
        } else if i == 2 {
            Month::March
        } else if i == 3 {
            Month::April
        } else if i == 4 {
            Month::May
        } else if i == 5 {
            Month::June
        } else if i == 6 {
            Month::July
        } else if i == 7 {
            Month::August
        } else if i == 8 {
            Month::September
        } else if i == 9 {
            Month::October
        } else if i == 10 {
            Month::November
        } else {
            Month::December
        }
    }

    /// The month numbered `mes`, counting January as 1.
    pub fn from_one(mes: i8) -> (r: Result<Month, Error>)
        ensures
            1 <= mes <= 12 ==> r == Ok::<Month, Error>(Month::de_indice(mes - 1)),
            !(1 <= mes <= 12) ==> r == Err::<Month, Error>(Error::FechaInvalida),
    {
        match mes {
            1 => Ok(Month::January),
            2 => Ok(Month::February),
            3 => Ok(Month::March),
            4 => Ok(Month::April),
            5 => Ok(Month::May),
            6 => Ok(Month::June),
            7 => Ok(Month::July),
            8 => Ok(Month::August),
            9 => Ok(Month::September),
            10 => Ok(Month::October),
            11 => Ok(Month::November),
            12 => Ok(Month::December),
            _ => Err(Error::FechaInvalida),
        }
    }

    /// Position of the month in the year, from 0 (January) to 11 (December).
    pub fn numero(&self) -> (r: u64)
        ensures
            r == self.indice(),
    {
        match self {
            Month::January => 0,
            Month::February => 1,
            Month::March => 2,
            Month::April => 3,
            Month::May => 4,
            Month::June => 5,
            Month::July => 6,
            Month::August => 7,
            Month::September => 8,
            Month::October => 9,
            Month::November => 10,
            Month::December => 11,
        }
    }
}

/// A calendar date with an unbounded year, as the contracts speak of it.
pub struct FechaSpec {
    pub anio: int,
    pub mes: Month,
    pub dia: int,
}

/// A date with a time of day given in seconds since midnight.
pub struct InstanteSpec {
    pub fecha: FechaSpec,
    pub segundos: int,
}

/// Leap years of the Gregorian calendar: the multiples of four, but for the
/// multiples of one hundred that are not multiples of four hundred.
pub open spec fn es_bisiesto_spec(anio: int) -> bool {
    anio % 4 == 0 && (anio % 100 != 0 || anio % 400 == 0)
}

/// Number of days of month `mes` in year `anio`.
pub open spec fn max_dia_spec(anio: int, mes: Month) -> int {
    match mes {
        Month::February => if es_bisiesto_spec(anio) {
            29
        } else {
            28
        },
        Month::April | Month::June | Month::September | Month::November => 30,
        _ => 31,
    }
}

/// `dia` is a day of month `mes` of year `anio`.
pub open spec fn fecha_valida(anio: int, mes: Month, dia: int) -> bool {
    0 < dia <= max_dia_spec(anio, mes)
}

/// The day that follows `f`.
pub open spec fn sucesor(f: FechaSpec) -> FechaSpec {
    if f.dia + 1 <= max_dia_spec(f.anio, f.mes) {
        FechaSpec { anio: f.anio, mes: f.mes, dia: f.dia + 1 }
    } else if f.mes == Month::December {
        FechaSpec { anio: f.anio + 1, mes: Month::January, dia: 1 }
    } else {
        FechaSpec { anio: f.anio, mes: Month::de_indice(f.mes.indice() + 1), dia: 1 }
    }
}

/// The date `n` days after `f`.
pub open spec fn sumar_dias_spec(f: FechaSpec, n: nat) -> FechaSpec
    decreases n,
{
    if n == 0 {
        f
    } else {
        sucesor(sumar_dias_spec(f, (n - 1) as nat))
    }
}

/// The first of January of 1970.
pub open spec fn epoch_spec() -> FechaSpec {
    FechaSpec { anio: 1970, mes: Month::January, dia: 1 }
}

/// Number of days in the first `n` months counted from January 1970.
pub open spec fn dias_antes(n: nat) -> nat
    decreases n,
{
    if n == 0 {
        0
    } else {
        dias_antes((n - 1) as nat) + max_dia_spec(
            1970 + (n - 1) / 12,
            Month::de_indice((n - 1) % 12),
        ) as nat
    }
}

/// Number of whole months between January 1970 and the month of `f`.
pub open spec fn indice_mes(f: FechaSpec) -> int {
    (f.anio - 1970) * 12 + f.mes.indice()
}

/// Number of days between the first of January of 1970 and `f`.
pub open spec fn dias_desde_epoch(f: FechaSpec) -> int {
    dias_antes(indice_mes(f) as nat) + f.dia - 1
}

/// Seconds elapsed from the first of January of 1970 until instant `i`.
pub open spec fn segundos_de(i: InstanteSpec) -> int {
    dias_desde_epoch(i.fecha) * 86400 + i.segundos
}

/// `x / d` rounded towards zero, as machine division does.
pub open spec fn div_trunc(x: int, d: int) -> int {
    if x >= 0 {
        x / d
    } else {
        -((-x) / d)
    }
}

/// The remainder that goes with `div_trunc`.
pub open spec fn rem_trunc(x: int, d: int) -> int {
    x - d * div_trunc(x, d)
}

/// The instant `s` seconds after the start of 1970: whole days are counted
/// modulo 2^32 and the rest, taken with the sign of `s`, is the time of day.
pub open spec fn instante_de(s: i64) -> InstanteSpec {
    InstanteSpec {
        fecha: sumar_dias_spec(epoch_spec(), (div_trunc(s as int, 86400) as u32) as nat),
        segundos: (rem_trunc(s as int, 86400) as u32) as int,
    }
}

/// The instant `n` seconds after `i`: its time of day and the seconds added
/// carry into whole days.
pub open spec fn sumar_segundos_spec(i: InstanteSpec, n: int) -> InstanteSpec {
    InstanteSpec {
        fecha: sumar_dias_spec(i.fecha, ((i.segundos + n) / 86400) as nat),
        segundos: (i.segundos + n) % 86400,
    }
}

/// `a` is an earlier day than `b`.
pub open spec fn fecha_menor(a: FechaSpec, b: FechaSpec) -> bool {
    ||| a.anio < b.anio
    ||| a.anio == b.anio && a.mes.indice() < b.mes.indice()
    ||| a.anio == b.anio && a.mes == b.mes && a.dia < b.dia
}

/// `a` is an earlier instant than `b`.
pub open spec fn instante_menor(a: InstanteSpec, b: InstanteSpec) -> bool {
    ||| fecha_menor(a.fecha, b.fecha)
    ||| a.fecha == b.fecha && a.segundos < b.segundos
}

/// The largest instant, in seconds, whose count of whole days fits in 32 bits.
pub open spec fn limite_segundos() -> int {
    4294967296 * 86400 - 1
}


/// The month after `m`, within the same year.
proof fn lema_mes_siguiente(m: Month)
    requires
        m != Month::December,
    ensures
        Month::de_indice(m.indice() + 1).indice() == m.indice() + 1,
        0 <= m.indice() < 11,
{
}

/// Every month has between 28 and 31 days.
proof fn lema_max_dia(anio: int, mes: Month)
    ensures
        28 <= max_dia_spec(anio, mes) <= 31,
        Month::de_indice(mes.indice()) == mes,
        0 <= mes.indice() < 12,
{
}

/// The month index of a date splits back into its year and month.
proof fn lema_indice_mes(f: FechaSpec)
    requires
        f.anio >= 1970,
    ensures
        indice_mes(f) >= 0,
        indice_mes(f) / 12 == f.anio - 1970,
        indice_mes(f) % 12 == f.mes.indice(),
        max_dia_spec(1970 + indice_mes(f) / 12, Month::de_indice(indice_mes(f) % 12))
            == max_dia_spec(f.anio, f.mes),
{
    lema_max_dia(f.anio, f.mes);
    vstd::arithmetic::div_mod::lemma_fundamental_div_mod_converse(
        indice_mes(f),
        12,
        f.anio - 1970,
        f.mes.indice(),
    );
}

/// Counting months from 1970 never loses days.
proof fn lema_dias_antes_monotono(i: nat, j: nat)
    requires
        i <= j,
    ensures
        dias_antes(i) <= dias_antes(j),
        dias_antes(j) >= j,
    decreases j,
{
    if j > 0 {
        lema_max_dia(1970 + (j - 1) / 12, Month::de_indice((j - 1) % 12));
        if i < j {
            lema_dias_antes_monotono(i, (j - 1) as nat);
        } else {
            lema_dias_antes_monotono((j - 1) as nat, (j - 1) as nat);
        }
    }
}

/// The day after a valid date is valid, one day later, and in the same or the next year.
proof fn lema_sucesor(f: FechaSpec)
    requires
        fecha_valida(f.anio, f.mes, f.dia),
    ensures
        fecha_valida(sucesor(f).anio, sucesor(f).mes, sucesor(f).dia),
        f.anio <= sucesor(f).anio <= f.anio + 1,
        f.anio >= 1970 ==> dias_desde_epoch(sucesor(f)) == dias_desde_epoch(f) + 1,
{
    let g = sucesor(f);
    lema_max_dia(f.anio, f.mes);
    lema_max_dia(g.anio, g.mes);
    if f.anio >= 1970 {
        lema_indice_mes(f);
        if f.dia + 1 <= max_dia_spec(f.anio, f.mes) {
        } else {
            assert(f.dia == max_dia_spec(f.anio, f.mes));
            if f.mes == Month::December {
                assert(indice_mes(g) == indice_mes(f) + 1);
            } else {
                lema_mes_siguiente(f.mes);
                assert(indice_mes(g) == indice_mes(f) + 1);
            }
            assert(dias_antes((indice_mes(f) + 1) as nat) == dias_antes(indice_mes(f) as nat)
                + max_dia_spec(f.anio, f.mes));
        }
    }
}

/// Adding days to a valid date gives a valid date, and each day moves the
/// year forward by at most one.
pub proof fn lema_sumar_dias(f: FechaSpec, n: nat)
    requires
        fecha_valida(f.anio, f.mes, f.dia),
    ensures
        fecha_valida(sumar_dias_spec(f, n).anio, sumar_dias_spec(f, n).mes, sumar_dias_spec(f, n).dia),
        f.anio <= sumar_dias_spec(f, n).anio <= f.anio + n,
        f.anio >= 1970 ==> dias_desde_epoch(sumar_dias_spec(f, n)) == dias_desde_epoch(f) + n,
    decreases n,
{
    if n > 0 {
        lema_sumar_dias(f, (n - 1) as nat);
        lema_sucesor(sumar_dias_spec(f, (n - 1) as nat));
    }
}

/// Adding more days never moves the year back.
proof fn lema_anio_monotono(f: FechaSpec, n: nat, m: nat)
    requires
        fecha_valida(f.anio, f.mes, f.dia),
        n <= m,
    ensures
        sumar_dias_spec(f, n).anio <= sumar_dias_spec(f, m).anio,
    decreases m,
{
    if n < m {
        lema_anio_monotono(f, n, (m - 1) as nat);
        lema_sumar_dias(f, (m - 1) as nat);
        lema_sucesor(sumar_dias_spec(f, (m - 1) as nat));
    }
}

/// The earlier of two valid dates from 1970 on has fewer days since 1970.
proof fn lema_orden_dias(f: FechaSpec, g: FechaSpec)
    requires
        fecha_valida(f.anio, f.mes, f.dia),
        fecha_valida(g.anio, g.mes, g.dia),
        f.anio >= 1970,
        g.anio >= 1970,
        fecha_menor(f, g),
    ensures
        dias_desde_epoch(f) < dias_desde_epoch(g),
{
    lema_indice_mes(f);
    lema_indice_mes(g);
    let i = indice_mes(f);
    let j = indice_mes(g);
    if i < j {
        assert(dias_antes((i + 1) as nat) == dias_antes(i as nat) + max_dia_spec(f.anio, f.mes));
        lema_dias_antes_monotono((i + 1) as nat, j as nat);
    } else {
        assert(i == j);
    }
}

/// Two distinct dates are ordered one way or the other, and never both ways.
proof fn lema_orden_total(f: FechaSpec, g: FechaSpec)
    ensures
        f != g ==> fecha_menor(f, g) || fecha_menor(g, f),
        !(fecha_menor(f, g) && fecha_menor(g, f)),
        !fecha_menor(f, f),
{
    if f.anio == g.anio && f.mes.indice() == g.mes.indice() {
        lema_max_dia(f.anio, f.mes);
        lema_max_dia(g.anio, g.mes);
        assert(f.mes == g.mes);
    }
}

/// The first of January of 1970 is a valid date with no days before it.
proof fn lema_epoch()
    ensures
        fecha_valida(epoch_spec().anio, epoch_spec().mes, epoch_spec().dia),
        dias_desde_epoch(epoch_spec()) == 0,
{
    assert(indice_mes(epoch_spec()) == 0);
}

/// For an instant in range, the day count and the time of day are the
/// quotient and remainder of the seconds by one day.
proof fn lema_partes(s: i64)
    requires
        0 <= s <= limite_segundos(),
    ensures
        (div_trunc(s as int, 86400) as u32) as int == s / 86400,
        (rem_trunc(s as int, 86400) as u32) as int == s % 86400,
        0 <= s % 86400 < 86400,
        s == (s / 86400) * 86400 + s % 86400,
{
    vstd::arithmetic::div_mod::lemma_fundamental_div_mod(s as int, 86400);
    vstd::arithmetic::div_mod::lemma_div_pos_is_pos(s as int, 86400);
}

/// Law: counting the seconds of the instant that `s` names gives back `s`.
pub proof fn ley_segundos_de_instante(s: i64)
    requires
        0 <= s <= limite_segundos(),
    ensures
        segundos_de(instante_de(s)) == s,
        fecha_valida(instante_de(s).fecha.anio, instante_de(s).fecha.mes, instante_de(s).fecha.dia),
        1970 <= instante_de(s).fecha.anio <= 1970 + s / 86400,
        0 <= instante_de(s).segundos < 86400,
{
    lema_partes(s);
    lema_epoch();
    lema_sumar_dias(epoch_spec(), (s / 86400) as nat);
}

/// Law: a valid instant from 1970 on, with a time of day under one day, is
/// the instant that its count of seconds names.
pub proof fn ley_instante_de_segundos(i: InstanteSpec)
    requires
        fecha_valida(i.fecha.anio, i.fecha.mes, i.fecha.dia),
        i.fecha.anio >= 1970,
        0 <= i.segundos < 86400,
        segundos_de(i) <= limite_segundos(),
    ensures
        instante_de(segundos_de(i) as i64) == i,
{
    let s = segundos_de(i) as i64;
    lema_indice_mes(i.fecha);
    lema_dias_antes_monotono(0, indice_mes(i.fecha) as nat);
    assert(s as int == segundos_de(i));
    vstd::arithmetic::div_mod::lemma_fundamental_div_mod_converse(
        s as int,
        86400,
        dias_desde_epoch(i.fecha),
        i.segundos,
    );
    lema_partes(s);
    let f = sumar_dias_spec(epoch_spec(), (s / 86400) as nat);
    lema_epoch();
    lema_sumar_dias(epoch_spec(), (s / 86400) as nat);
    assert(dias_desde_epoch(f) == dias_desde_epoch(i.fecha));
    lema_orden_total(f, i.fecha);
    if f != i.fecha {
        if fecha_menor(f, i.fecha) {
            lema_orden_dias(f, i.fecha);
        } else {
            lema_orden_dias(i.fecha, f);
        }
    }
}

/// Law: of two instants in range, the one named by fewer seconds is the earlier.
pub proof fn ley_instante_de_monotono(a: i64, b: i64)
    requires
        0 <= a <= limite_segundos(),
        0 <= b <= limite_segundos(),
    ensures
        instante_menor(instante_de(a), instante_de(b)) <==> a < b,
{
    lema_partes(a);
    lema_partes(b);
    lema_epoch();
    lema_sumar_dias(epoch_spec(), (a / 86400) as nat);
    lema_sumar_dias(epoch_spec(), (b / 86400) as nat);
    let fa = instante_de(a).fecha;
    let fb = instante_de(b).fecha;
    lema_orden_total(fa, fb);
    if fecha_menor(fa, fb) {
        lema_orden_dias(fa, fb);
    }
    if fecha_menor(fb, fa) {
        lema_orden_dias(fb, fa);
    }
    if a / 86400 == b / 86400 {
        assert(fa == fb);
    }
}


/// A calendar date.
#[derive(Debug, Clone, Copy, PartialEq, Eq)]
pub struct LocalDate {
    pub year: i64,
    pub month: Month,
    pub day: i8,
}

/// A time of day, in seconds since midnight.
#[derive(Debug, Clone, Copy, PartialEq, Eq)]
pub struct LocalTime {
    pub segundos: u32,
}

/// A date together with a time of day.
#[derive(Debug, Clone, Copy, PartialEq, Eq)]
pub struct LocalDateTime {
    pub local_date: LocalDate,
    pub local_time: LocalTime,
}

impl View for LocalDate {
    type V = FechaSpec;

    open spec fn view(&self) -> FechaSpec {
        FechaSpec { anio: self.year as int, mes: self.month, dia: self.day as int }
    }
}

impl View for LocalDateTime {
    type V = InstanteSpec;

    open spec fn view(&self) -> InstanteSpec {
        InstanteSpec { fecha: self.local_date@, segundos: self.local_time.segundos as int }
    }
}

impl LocalDate {
    /// The date names a real day of the calendar.
    pub open spec fn wf(self) -> bool {
        fecha_valida(self.year as int, self.month, self.day as int)
    }

    /// The date `day`/`month`/`year`, if it is a real calendar date.
    pub fn ymd(year: i64, month: Month, day: i8) -> (r: Result<LocalDate, Error>)
        ensures
            fecha_valida(year as int, month, day as int) ==> r == Ok::<LocalDate, Error>(
                LocalDate { year, month, day },
            ),
            !fecha_valida(year as int, month, day as int) ==> r == Err::<LocalDate, Error>(
                Error::FechaInvalida,
            ),
    {
        if !Self::es_fecha_valida(year, month, day) {
            return Err(Error::FechaInvalida);
        }
        Ok(LocalDate { year, month, day })
    }

    pub fn year(&self) -> (r: i64)
        ensures
            r == self.year,
    {
        self.year
    }

    pub fn month(&self) -> (r: Month)
        ensures
            r == self.month,
    {
        self.month
    }

    /// `anio` is a leap year of the Gregorian calendar.
    pub fn es_bisiesto(anio: i64) -> (r: bool)
        ensures
            r == es_bisiesto_spec(anio as int),
    {
        anio % 4 == 0 && (anio % 100 != 0 || anio % 400 == 0)
    }

    /// `dia` lies between 1 and `dia_max`.
    pub fn es_dia_valido(dia: i8, dia_max: i8) -> (r: bool)
        ensures
            r == (0 < dia <= dia_max),
    {
        dia > 0 && dia <= dia_max
    }

    /// `dia` is a day of month `mes` of year `anio`.
    pub fn es_fecha_valida(anio: i64, mes: Month, dia: i8) -> (r: bool)
        ensures
            r == fecha_valida(anio as int, mes, dia as int),
    {
        Self::es_dia_valido(dia, Self::max_dia(anio, mes))
    }

    /// Moves the date `dias` days forward.
    pub fn sumar_dias(&mut self, dias: u32)
        requires
            old(self).wf(),
            sumar_dias_spec(old(self)@, dias as nat).anio <= i64::MAX,
        ensures
            final(self)@ == sumar_dias_spec(old(self)@, dias as nat),
            final(self).wf(),
    {
        let ghost inicio = self@;
        let mut i: u32 = 0;
        while i < dias
            invariant
                i <= dias,
                self.wf(),
                self@ == sumar_dias_spec(inicio, i as nat),
                fecha_valida(inicio.anio, inicio.mes, inicio.dia),
                sumar_dias_spec(inicio, dias as nat).anio <= i64::MAX,
            decreases dias - i,
        {
            proof {
                lema_max_dia(self.year as int, self.month);
                lema_anio_monotono(inicio, (i + 1) as nat, dias as nat);
                lema_sumar_dias(inicio, i as nat);
                lema_sucesor(self@);
            }
            self.day = self.day + 1;
            self.chequear_carry();
            i = i + 1;
        }
    }

    /// Turns a day one past the end of its month into the first day of the
    /// next month.
    pub fn chequear_carry(&mut self)
        requires
            fecha_valida(old(self).year as int, old(self).month, old(self).day - 1),
            sucesor(FechaSpec { anio: old(self).year as int, mes: old(self).month, dia: old(self).day - 1 }).anio
                <= i64::MAX,
        ensures
            final(self)@ == sucesor(
                FechaSpec { anio: old(self).year as int, mes: old(self).month, dia: old(self).day - 1 },
            ),
    {
        if !Self::es_fecha_valida(self.year, self.month, self.day) {
            if !self.inc_mes().is_ok() {
                self.month = Month::January;
                self.year = self.year + 1;
            }
            self.day = 1;
        }
    }

    /// Number of days of month `mes` in year `anio`.
    pub fn max_dia(anio: i64, mes: Month) -> (r: i8)
        ensures
            r == max_dia_spec(anio as int, mes),
    {
        match mes {
            Month::February => {
                if Self::es_bisiesto(anio) {
                    29
                } else {
                    28
                }
            },
            Month::January | Month::March | Month::May | Month::July | Month::August
            | Month::October | Month::December => 31,
            Month::April | Month::June | Month::September | Month::November => 30,
        }
    }

    /// Moves the month one forward, unless it is December.
    pub fn inc_mes(&mut self) -> (r: Result<(), ()>)
        ensures
            old(self).month == Month::December ==> r is Err && *final(self) == *old(self),
            old(self).month != Month::December ==> r is Ok && *final(self) == (LocalDate {
                month: Month::de_indice(old(self).month.indice() + 1),
                ..*old(self)
            }),
    {
        match self.month {
            Month::January => { self.month = Month::February },
            Month::February => { self.month = Month::March },
            Month::March => { self.month = Month::April },
            Month::April => { self.month = Month::May },
            Month::May => { self.month = Month::June },
            Month::June => { self.month = Month::July },
            Month::July => { self.month = Month::August },
            Month::August => { self.month = Month::September },
            Month::September => { self.month = Month::October },
            Month::October => { self.month = Month::November },
            Month::November => { self.month = Month::December },
            Month::December => { return Err(()) },
        }
        Ok(())
    }

    /// The month before `month`, unless it is January.
    pub fn mes_ant(month: Month) -> (r: Result<Month, ()>)
        ensures
            month == Month::January ==> r is Err,
            month != Month::January ==> r == Ok::<Month, ()>(Month::de_indice(month.indice() - 1)),
    {
        match month {
            Month::January => Err(()),
            Month::February => Ok(Month::January),
            Month::March => Ok(Month::February),
            Month::April => Ok(Month::March),
            Month::May => Ok(Month::April),
            Month::June => Ok(Month::May),
            Month::July => Ok(Month::June),
            Month::August => Ok(Month::July),
            Month::September => Ok(Month::August),
            Month::October => Ok(Month::September),
            Month::November => Ok(Month::October),
            Month::December => Ok(Month::November),
        }
    }
}

/// The date can be counted in seconds since 1970 within 64 bits.
pub open spec fn fecha_contable(f: FechaSpec) -> bool {
    &&& fecha_valida(f.anio, f.mes, f.dia)
    &&& f.anio >= 1970
    &&& dias_desde_epoch(f) * 86400 <= u64::MAX
}

impl LocalDate {
    /// Number of seconds from the start of 1970 to the start of this day.
    pub fn cant_segundos(&self) -> (r: u64)
        requires
            fecha_contable(self@),
        ensures
            r == dias_desde_epoch(self@) * 86400,
    {
        let segundos_en_un_dia: u64 = 86400;
        self.cant_dias() * segundos_en_un_dia
    }

    /// Number of days from the first of January of 1970 to this date.
    pub fn cant_dias(&self) -> (r: u64)
        requires
            fecha_contable(self@),
        ensures
            r == dias_desde_epoch(self@),
    {
        proof {
            lema_indice_mes(self@);
            lema_dias_antes_monotono(0, indice_mes(self@) as nat);
        }
        self.cant_dias_rec(self.cantidad_de_meses(), self.year, self.month, self.day as u64) - 1
    }

    /// Number of whole months from January 1970 to the month of this date.
    pub fn cantidad_de_meses(&self) -> (r: u64)
        requires
            self.year >= 1970,
            indice_mes(self@) <= u64::MAX,
        ensures
            r == indice_mes(self@),
    {
        (self.year - 1970) as u64 * 12 + self.month.numero()
    }

    /// Adds to `dias_sumados` the days of the `cant_meses_que_faltan_contar`
    /// months before month `mes_a_contar` of year `anio_a_contar`.
    pub fn cant_dias_rec(
        &self,
        cant_meses_que_faltan_contar: u64,
        anio_a_contar: i64,
        mes_a_contar: Month,
        dias_sumados: u64,
    ) -> (r: u64)
        requires
            (anio_a_contar - 1970) * 12 + mes_a_contar.indice() == cant_meses_que_faltan_contar,
            dias_sumados + dias_antes(cant_meses_que_faltan_contar as nat) <= u64::MAX,
        ensures
            r == dias_sumados + dias_antes(cant_meses_que_faltan_contar as nat),
        decreases cant_meses_que_faltan_contar,
    {
        if cant_meses_que_faltan_contar == 0 {
            return dias_sumados;
        }
        let mut anio_a_contar = anio_a_contar;
        let binding: Result<Month, ()> = Self::mes_ant(mes_a_contar);
        let mes_anterior;
        if binding.is_err() {
            anio_a_contar = anio_a_contar - 1;
            mes_anterior = Month::December;
        } else {
            mes_anterior = binding.unwrap();
        }
        proof {
            let anterior = FechaSpec { anio: anio_a_contar as int, mes: mes_anterior, dia: 1 };
            lema_max_dia(anio_a_contar as int, mes_anterior);
            lema_max_dia(anio_a_contar as int, mes_a_contar);
            assert(indice_mes(anterior) == cant_meses_que_faltan_contar - 1);
            lema_indice_mes(anterior);
        }
        self.cant_dias_rec(
            cant_meses_que_faltan_contar - 1,
            anio_a_contar,
            mes_anterior,
            dias_sumados + (Self::max_dia(anio_a_contar, mes_anterior) as u64),
        )
    }
}

impl LocalTime {
    /// The start of the day.
    pub fn midnight() -> (r: LocalTime)
        ensures
            r.segundos == 0,
    {
        LocalTime { segundos: 0 }
    }
}

impl LocalDateTime {
    pub fn new(local_date: LocalDate, local_time: LocalTime) -> (r: LocalDateTime)
        ensures
            r.local_date == local_date,
            r.local_time == local_time,
    {
        LocalDateTime { local_date, local_time }
    }

    /// The instant that the clock reading `ahora`, in seconds since 1970, names.
    pub fn now(ahora: u64) -> (r: LocalDateTime)
        ensures
            r@ == instante_de(ahora as i64),
            r.local_date.wf(),
    {
        LocalDateTime::at(ahora as i64)
    }

    /// A copy of this instant.
    pub fn to_instant(&self) -> (r: LocalDateTime)
        ensures
            r == *self,
    {
        *self
    }

    /// Seconds from the start of 1970 to this instant.
    pub fn seconds(&self) -> (r: u64)
        requires
            self.local_date.wf(),
            self.local_date.year >= 1970,
            segundos_de(self@) <= u64::MAX,
        ensures
            r == segundos_de(self@),
    {
        self.local_date.cant_segundos() + self.local_time.segundos as u64
    }

    /// Midnight of the first of January of 1970.
    pub fn local_date_time_del_inicio_del_time_stamp() -> (r: LocalDateTime)
        ensures
            r@ == (InstanteSpec { fecha: epoch_spec(), segundos: 0 }),
    {
        LocalDateTime {
            local_date: LocalDate { year: 1970, month: Month::January, day: 1 },
            local_time: LocalTime::midnight(),
        }
    }

    /// The instant `seconds_since_1970` seconds after the start of 1970.
    pub fn at(seconds_since_1970: i64) -> (r: LocalDateTime)
        ensures
            r@ == instante_de(seconds_since_1970),
            r.local_date.wf(),
    {
        let mut local_date_time_resultante = Self::local_date_time_del_inicio_del_time_stamp();
        let cant_dias: u32 = (seconds_since_1970 / 86400) as u32;
        let cant_segundos: u32 = (seconds_since_1970 % 86400) as u32;
        proof {
            lema_epoch();
            lema_sumar_dias(epoch_spec(), cant_dias as nat);
        }
        local_date_time_resultante.local_date.sumar_dias(cant_dias);
        local_date_time_resultante.local_time.segundos = local_date_time_resultante.local_time.segundos
            + cant_segundos;
        local_date_time_resultante
    }

    /// The day of this instant.
    pub fn date(&self) -> (r: LocalDate)
        ensures
            r == self.local_date,
    {
        self.local_date
    }

    /// Moves this instant `seconds` seconds forward, and returns the result.
    pub fn add_seconds(&mut self, seconds: u128) -> (r: LocalDateTime)
        requires
            old(self).local_date.wf(),
            (old(self).local_time.segundos + seconds) / 86400 <= u32::MAX,
            sumar_segundos_spec(old(self)@, seconds as int).fecha.anio <= i64::MAX,
        ensures
            final(self)@ == sumar_segundos_spec(old(self)@, seconds as int),
            final(self).local_date.wf(),
            old(self).local_date.year >= 1970 ==> segundos_de(final(self)@) == segundos_de(old(self)@)
                + seconds,
            r == *final(self),
    {
        let total: u128 = self.local_time.segundos as u128 + seconds;
        let dias = (total / 86400) as u32;
        let resto = (total % 86400) as u32;
        self.local_date.sumar_dias(dias);
        self.local_time.segundos = resto;
        proof {
            let ini = old(self)@;
            vstd::arithmetic::div_mod::lemma_fundamental_div_mod(total as int, 86400);
            lema_sumar_dias(ini.fecha, dias as nat);
            assert(self@ == sumar_segundos_spec(ini, seconds as int));
        }
        *self
    }

    /// This instant comes after `otro`.
    pub fn es_posterior_a(&self, otro: &LocalDateTime) -> (r: bool)
        ensures
            r == instante_menor(otro@, self@),
    {
        let a = self.local_date.month.numero();
        let b = otro.local_date.month.numero();
        proof {
            lema_max_dia(0, self.local_date.month);
            lema_max_dia(0, otro.local_date.month);
        }
        if self.local_date.year != otro.local_date.year {
            self.local_date.year > otro.local_date.year
        } else if a != b {
            a > b
        } else if self.local_date.day != otro.local_date.day {
            self.local_date.day > otro.local_date.day
        } else {
            self.local_time.segundos > otro.local_time.segundos
        }
    }
}

/// Any instant named by a machine integer is a valid date from 1970 on whose
/// count of seconds fits in 64 bits, with no more than 2^32 - 1 days.
pub proof fn lema_segundos_acotados(s: i64)
    ensures
        fecha_valida(instante_de(s).fecha.anio, instante_de(s).fecha.mes, instante_de(s).fecha.dia),
        instante_de(s).fecha.anio >= 1970,
        0 <= dias_desde_epoch(instante_de(s).fecha) <= u32::MAX,
        0 <= instante_de(s).segundos <= u32::MAX,
        segundos_de(instante_de(s)) <= u64::MAX,
        instante_de(s).fecha.anio <= 1970 + u32::MAX,
{
    let n = (div_trunc(s as int, 86400) as u32) as nat;
    lema_epoch();
    lema_sumar_dias(epoch_spec(), n);
    assert(dias_desde_epoch(instante_de(s).fecha) * 86400 <= 4294967295 * 86400) by (nonlinear_arith)
        requires
            dias_desde_epoch(instante_de(s).fecha) <= 4294967295,
            dias_desde_epoch(instante_de(s).fecha) >= 0,
    ;
}

} // verus!
