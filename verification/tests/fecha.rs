use club_sem_rust::fecha::{LocalDate, LocalDateTime, LocalTime, Month};
use club_sem_rust::registro::Error;

#[test]
fn meses_desde_uno() {
    assert_eq!(Month::from_one(1), Ok(Month::January));
    assert_eq!(Month::from_one(10), Ok(Month::October));
    assert_eq!(Month::from_one(12), Ok(Month::December));
    assert_eq!(Month::from_one(0), Err(Error::FechaInvalida));
    assert_eq!(Month::from_one(13), Err(Error::FechaInvalida));
    assert_eq!(Month::October.numero(), 9);
}

#[test]
fn anios_bisiestos_gregorianos() {
    assert!(LocalDate::es_bisiesto(2024));
    assert!(!LocalDate::es_bisiesto(2023));
    assert!(!LocalDate::es_bisiesto(2021));
    assert!(LocalDate::es_bisiesto(2000));
    assert!(!LocalDate::es_bisiesto(1900));
    assert!(!LocalDate::es_bisiesto(2100));
    assert!(LocalDate::ymd(1900, Month::February, 29).is_err());
    assert!(LocalDate::ymd(2000, Month::February, 29).is_ok());
    assert_eq!(LocalDate::max_dia(2100, Month::February), 28);
    assert_eq!(LocalDate::max_dia(2024, Month::February), 29);
    assert_eq!(LocalDate::max_dia(2023, Month::February), 28);
    assert_eq!(LocalDate::max_dia(2023, Month::April), 30);
    assert_eq!(LocalDate::max_dia(2023, Month::December), 31);
}

#[test]
fn fechas_validas_e_invalidas() {
    assert!(LocalDate::ymd(2024, Month::February, 29).is_ok());
    assert_eq!(LocalDate::ymd(2023, Month::February, 29), Err(Error::FechaInvalida));
    assert_eq!(LocalDate::ymd(2023, Month::April, 31), Err(Error::FechaInvalida));
    assert_eq!(LocalDate::ymd(2023, Month::April, 0), Err(Error::FechaInvalida));
    assert!(LocalDate::es_fecha_valida(2000, Month::January, 31));
    assert!(!LocalDate::es_fecha_valida(2000, Month::January, 32));
    assert!(LocalDate::es_dia_valido(5, 30));
    assert!(!LocalDate::es_dia_valido(0, 30));
}

#[test]
fn instante_del_comienzo() {
    let t = LocalDateTime::at(0);
    assert_eq!(t, LocalDateTime::local_date_time_del_inicio_del_time_stamp());
    assert_eq!(t.date(), LocalDate { year: 1970, month: Month::January, day: 1 });
    assert_eq!(t.local_time, LocalTime::midnight());
}

#[test]
fn instante_del_reloj_de_las_pruebas() {
    // 45184555 s = 522 days and 83755 s after the start of 1970
    let t = LocalDateTime::at(45184555);
    assert_eq!(t.date(), LocalDate { year: 1971, month: Month::June, day: 7 });
    assert_eq!(t.local_time.segundos, 83755);
    assert_eq!(t.seconds(), 45184555);
    assert_eq!(t.date().cant_dias(), 522);
    assert_eq!(t.date().cant_segundos(), 522 * 86400);
    assert_eq!(LocalDateTime::now(45184555), t);
}

#[test]
fn segundos_de_un_instante_y_vuelta() {
    for s in [0i64, 1, 86399, 86400, 31535999, 31536000, 951782400, 1700000000] {
        let t = LocalDateTime::at(s);
        assert_eq!(t.seconds() as i64, s);
        assert_eq!(LocalDateTime::at(t.seconds() as i64), t);
    }
}

#[test]
fn sumar_dias_cruza_meses_y_anios() {
    let mut d = LocalDate::ymd(1970, Month::December, 31).unwrap();
    d.sumar_dias(1);
    assert_eq!(d, LocalDate { year: 1971, month: Month::January, day: 1 });
    let mut d = LocalDate::ymd(2024, Month::February, 28).unwrap();
    d.sumar_dias(1);
    assert_eq!(d, LocalDate { year: 2024, month: Month::February, day: 29 });
    d.sumar_dias(1);
    assert_eq!(d, LocalDate { year: 2024, month: Month::March, day: 1 });
    let mut d = LocalDate::ymd(2023, Month::January, 1).unwrap();
    d.sumar_dias(365);
    assert_eq!(d, LocalDate { year: 2024, month: Month::January, day: 1 });
}

#[test]
fn sumar_segundos_avanza_dias_enteros() {
    let mut t = LocalDateTime::at(45184555);
    let r = t.add_seconds(604800);
    assert_eq!(r, t);
    assert_eq!(t.date(), LocalDate { year: 1971, month: Month::June, day: 14 });
    assert_eq!(t.local_time.segundos, 83755);
    // the seconds are added exactly, carrying into the day
    let mut u = LocalDateTime::at(0);
    u.add_seconds(86399);
    assert_eq!(u, LocalDateTime::at(86399));
    let mut v = LocalDateTime::at(0);
    assert_eq!(v.add_seconds(90000).seconds(), 90000);
    let mut w = LocalDateTime::at(0);
    assert_eq!(w.add_seconds(604800), LocalDateTime::at(604800));
    let mut x = LocalDateTime::at(45184555);
    assert_eq!(x.add_seconds(864000).seconds(), 45184555 + 864000);
}

#[test]
fn dias_de_un_siglo_no_bisiesto() {
    // from 1899-12-31 to 1900-03-01 there is no 29th of February
    let mut d = LocalDate::ymd(1900, Month::February, 28).unwrap();
    d.sumar_dias(1);
    assert_eq!(d, LocalDate { year: 1900, month: Month::March, day: 1 });
    // 2100-01-01 is 47482 days after 1970-01-01
    let e = LocalDate::ymd(2100, Month::January, 1).unwrap();
    assert_eq!(e.cant_dias(), 47482);
    assert_eq!(LocalDateTime::at(47482 * 86400).date(), e);
}

#[test]
fn meses_siguiente_y_anterior() {
    let mut d = LocalDate::ymd(2020, Month::January, 31).unwrap();
    assert!(d.inc_mes().is_ok());
    assert_eq!(d.month(), Month::February);
    let mut e = LocalDate::ymd(2020, Month::December, 1).unwrap();
    assert!(e.inc_mes().is_err());
    assert_eq!(e.month(), Month::December);
    assert_eq!(LocalDate::mes_ant(Month::March), Ok(Month::February));
    assert!(LocalDate::mes_ant(Month::January).is_err());
}

#[test]
fn cantidad_de_meses_y_dias_desde_1970() {
    let d = LocalDate::ymd(1971, Month::March, 1).unwrap();
    assert_eq!(d.cantidad_de_meses(), 14);
    // 365 days of 1970, then January and February of 1971
    assert_eq!(d.cant_dias(), 365 + 31 + 28);
    assert_eq!(d.cant_dias_rec(14, 1971, Month::March, 0), 365 + 31 + 28);
}

#[test]
fn orden_de_instantes() {
    let a = LocalDateTime::at(100);
    let b = LocalDateTime::at(200);
    let c = LocalDateTime::at(86400 * 40);
    assert!(b.es_posterior_a(&a));
    assert!(!a.es_posterior_a(&b));
    assert!(!a.es_posterior_a(&a));
    assert!(c.es_posterior_a(&b));
}
