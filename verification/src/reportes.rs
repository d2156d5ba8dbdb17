//! Reports over the club's fees: members with overdue fees, the money
//! collected per category in a month, and the members up to date who may
//! attend an activity.
//!
//! The reports read the club through its operations. `ClubSemRustFake` is a
//! club of fixed data whose clock reads 700, and `ReportesClubSemRustFake`
//! runs the same reports over it.

use vstd::prelude::*;
use crate::registro::{
    datas, lema_pagos_del_mes, pagos_del_mes, vencido_spec, ClubSemRust, DataPago, Entorno, Pago,
};
use crate::registro::Categoria as CategoriaClub;
use crate::fecha::{instante_de, instante_menor, Month};

verus! {

/// The errors that the reports can return.
#[derive(Debug, Clone, Copy, PartialEq, Eq, Structural)]
pub enum Error {
    /// The activity id does not name an activity of the club.
    ActividadInvalida,
    /// Some category of the club has no data loaded.
    NoTodasLasCategoriasTienenData,
    /// The caller lacks the permissions that the report needs.
    NoSePoseenLosPermisosSuficientes,
    /// The date given is not a real calendar date.
    FechaInvalida,
}

/// The activities, as the reports number them.
#[derive(Debug, Clone, Copy, PartialEq, Eq, Structural)]
pub enum Actividad {
    Futbol,
    Gimnasio,
    Basquet,
    Rugby,
    Hockey,
    Natacion,
    Tenis,
    Paddle,
}

/// The categories, as the reports number them.
#[derive(Debug, Clone, Copy, PartialEq, Eq, Structural)]
pub enum Categoria {
    A,
    B { deporte_seleccionado_por_el_usuario: Actividad },
    C,
}

impl Categoria {
    pub open spec fn id_spec(self) -> u32 {
        match self {
            Categoria::A => 0,
            Categoria::B { .. } => 1,
            Categoria::C => 2,
        }
    }

    /// Id of the category: its position among the variants.
    pub fn discriminant(&self) -> (r: u32)
        ensures
            r == self.id_spec(),
    {
        match self {
            Categoria::A => 0,
            Categoria::B { .. } => 1,
            Categoria::C => 2,
        }
    }
}

/// The member ids of the fees of `pagos` that satisfy `pred`, in order.
pub open spec fn socios_filtrados(pagos: Seq<DataPago>, pred: spec_fn(DataPago) -> bool) -> Seq<u128>
    decreases pagos.len(),
{
    if pagos.len() == 0 {
        Seq::empty()
    } else if pred(pagos.last()) {
        socios_filtrados(pagos.drop_last(), pred).push(pagos.last().1)
    } else {
        socios_filtrados(pagos.drop_last(), pred)
    }
}

/// `s` without consecutive repetitions: of each run of equal values, one stays.
pub open spec fn sin_repetidos_consecutivos(s: Seq<u128>) -> Seq<u128>
    decreases s.len(),
{
    if s.len() == 0 {
        s
    } else {
        let d = sin_repetidos_consecutivos(s.drop_last());
        if d.len() > 0 && d.last() == s.last() {
            d
        } else {
            d.push(s.last())
        }
    }
}

/// The amounts of the paid fees of `pagos` whose member is of the category
/// numbered `c`, added up.
pub open spec fn recaudado(pagos: Seq<DataPago>, categoria_de: spec_fn(u128) -> int, c: int) -> int
    decreases pagos.len(),
{
    if pagos.len() == 0 {
        0
    } else {
        recaudado(pagos.drop_last(), categoria_de, c) + if pagos.last().2 is Some && categoria_de(
            pagos.last().1,
        ) == c {
            pagos.last().4 as int
        } else {
            0
        }
    }
}

/// The fee described by `d` is overdue at the clock's instant `ahora`.
pub open spec fn vencido_data(d: DataPago, ahora: u64) -> bool {
    match d.2 {
        Some(f) => f > d.3,
        None => instante_menor(instante_de(d.3 as i64), instante_de(ahora as i64)),
    }
}

proof fn lema_recaudado_prefijo(pagos: Seq<DataPago>, categoria_de: spec_fn(u128) -> int, c: int, i: int)
    requires
        0 <= i <= pagos.len(),
    ensures
        0 <= recaudado(pagos.take(i), categoria_de, c) <= recaudado(pagos, categoria_de, c),
    decreases pagos.len(),
{
    if pagos.len() > 0 {
        if i == pagos.len() {
            assert(pagos.take(i) =~= pagos);
            lema_recaudado_prefijo(pagos.drop_last(), categoria_de, c, i - 1);
            assert(pagos.drop_last().take(i - 1) =~= pagos.drop_last());
        } else {
            lema_recaudado_prefijo(pagos.drop_last(), categoria_de, c, i);
            assert(pagos.drop_last().take(i) =~= pagos.take(i));
        }
    } else {
        assert(pagos.take(i) =~= pagos);
    }
}

/// `v` without consecutive repetitions.
pub fn quitar_repetidos_consecutivos(v: &Vec<u128>) -> (r: Vec<u128>)
    ensures
        r@ == sin_repetidos_consecutivos(v@),
{
    let mut r: Vec<u128> = Vec::new();
    let mut i: usize = 0;
    while i < v.len()
        invariant
            i <= v@.len(),
            r@ == sin_repetidos_consecutivos(v@.take(i as int)),
        decreases v@.len() - i,
    {
        assert(v@.take(i + 1).drop_last() =~= v@.take(i as int));
        let x = v[i];
        if r.len() > 0 && r[r.len() - 1] == x {
        } else {
            r.push(x);
        }
        i = i + 1;
    }
    assert(v@.take(v@.len() as int) =~= v@);
    r
}

/// A vector of `n` zeros.
pub fn ceros(n: u32) -> (r: Vec<u128>)
    ensures
        r@.len() == n,
        forall|i: int| 0 <= i < n ==> r@[i] == 0,
{
    let mut r: Vec<u128> = Vec::new();
    let mut i: u32 = 0;
    while i < n
        invariant
            i <= n,
            r@.len() == i,
            forall|j: int| 0 <= j < i ==> r@[j] == 0,
        decreases n - i,
    {
        r.push(0);
        i = i + 1;
    }
    r
}

/// The reports over a club.
pub struct ReportesClubSemRust {
    pub club_sem_rust: ClubSemRust,
}

/// The category of the member with id `socio_id` of `club`, as a number.
pub open spec fn categoria_en(club: ClubSemRust) -> spec_fn(u128) -> int {
    |socio_id: u128| club.socio_spec(socio_id).categoria.id_spec() as int
}

/// The club's member ids of the fees that are not overdue and whose member
/// may attend activity `id_actividad`.
pub open spec fn al_dia_en(club: ClubSemRust, id_actividad: u32, ahora: u64) -> spec_fn(DataPago) -> bool {
    |d: DataPago| !vencido_data(d, ahora) && club.permitida_spec(d.1, id_actividad)
}


/// The predicate "overdue at the clock's instant `ahora`" on fee data.
pub open spec fn vencido_en(ahora: u64) -> spec_fn(DataPago) -> bool {
    |d: DataPago| vencido_data(d, ahora)
}

impl ReportesClubSemRust {
    pub fn new(club_sem_rust: ClubSemRust) -> (r: ReportesClubSemRust)
        ensures
            r.club_sem_rust == club_sem_rust,
    {
        ReportesClubSemRust { club_sem_rust }
    }

    /// The member id of every overdue fee of the club, in order of fee; the
    /// caller needs permission on the club.
    pub fn verificacion_de_pagos_morosos(&self, entorno: &Entorno) -> (r: Result<Vec<u128>, Error>)
        requires
            self.club_sem_rust.wf(),
        ensures
            !self.club_sem_rust.tiene_permiso_spec(entorno.caller) ==> r == Err::<Vec<u128>, Error>(
                Error::NoSePoseenLosPermisosSuficientes,
            ),
            self.club_sem_rust.tiene_permiso_spec(entorno.caller) ==> (r matches Ok(v) && v@
                == socios_filtrados(datas(self.club_sem_rust.pagos@), vencido_en(entorno.ahora))),
    {
        let club = &self.club_sem_rust;
        if !club.tengo_permisos_suficientes_para_realizar_operaciones(entorno) {
            return Err(Error::NoSePoseenLosPermisosSuficientes)
        }
        let pagos = match club.get_data_pagos(entorno) {
            Ok(p) => p,
            Err(_) => { return Err(Error::NoSePoseenLosPermisosSuficientes) },
        };
        assert(club.pagos.len() == club.pagos@.len());
        let mut ids: Vec<u128> = Vec::new();
        let mut i: usize = 0;
        while i < pagos.len()
            invariant
                club.wf(),
                club.tiene_permiso_spec(entorno.caller),
                club.pagos@.len() <= usize::MAX,
                pagos@ == datas(club.pagos@),
                i <= pagos@.len(),
                ids@ == socios_filtrados(pagos@.take(i as int), vencido_en(entorno.ahora)),
            decreases pagos@.len() - i,
        {
            assert(pagos@.take(i + 1).drop_last() =~= pagos@.take(i as int));
            let d = pagos[i];
            assert(d == club.pagos@[i as int].data_spec());
            assert((d.0 as usize) as int == i);
            let vencido = match club.pago_esta_vencido(d.0, entorno) {
                Ok(v) => v,
                Err(_) => false,
            };
            if vencido {
                ids.push(d.1);
            }
            i = i + 1;
        }
        assert(pagos@.take(pagos@.len() as int) =~= pagos@);
        Ok(ids)
    }

    /// For each category, in order of id, the amounts of the paid fees that
    /// fall due in month `mes` (January is 1) of year `anio` and belong to a
    /// member of that category, added up. The caller needs permission on the club.
    pub fn informe_recaudacion_mensual(&self, mes: i8, anio: i64, entorno: &Entorno) -> (r: Result<
        Vec<u128>,
        Error,
    >)
        requires
            self.club_sem_rust.wf(),
            self.club_sem_rust.tiene_permiso_spec(entorno.caller) && 1 <= mes <= 12 ==> forall|c: int|
                0 <= c < 3 ==> #[trigger] recaudado(
                    datas(pagos_del_mes(self.club_sem_rust.pagos@, Month::de_indice(mes - 1), anio)),
                    categoria_en(self.club_sem_rust),
                    c,
                ) <= u128::MAX,
        ensures
            !self.club_sem_rust.tiene_permiso_spec(entorno.caller) ==> r == Err::<Vec<u128>, Error>(
                Error::NoSePoseenLosPermisosSuficientes,
            ),
            self.club_sem_rust.tiene_permiso_spec(entorno.caller) && !(1 <= mes <= 12) ==> r == Err::<
                Vec<u128>,
                Error,
            >(Error::FechaInvalida),
            self.club_sem_rust.tiene_permiso_spec(entorno.caller) && 1 <= mes <= 12 ==> (r matches Ok(v)
                && v@.len() == 3 && forall|c: int|
                0 <= c < 3 ==> v@[c] == recaudado(
                    datas(pagos_del_mes(self.club_sem_rust.pagos@, Month::de_indice(mes - 1), anio)),
                    categoria_en(self.club_sem_rust),
                    c,
                )),
    {
        let club = &self.club_sem_rust;
        if !club.tengo_permisos_suficientes_para_realizar_operaciones(entorno) {
            return Err(Error::NoSePoseenLosPermisosSuficientes)
        }
        let pagos = match club.get_data_pagos_del_mes_y_anio(mes, anio, entorno) {
            Ok(p) => p,
            Err(_) => { return Err(Error::FechaInvalida) },
        };
        let ghost del_mes = pagos_del_mes(club.pagos@, Month::de_indice(mes - 1), anio);
        proof {
            lema_pagos_del_mes(club.pagos@, Month::de_indice(mes - 1), anio);
        }
        let cant_categorias = club.cant_categorias();
        let mut monto_categorias_mensual = ceros(cant_categorias);
        let mut i: usize = 0;
        while i < pagos.len()
            invariant
                club.wf(),
                club.tiene_permiso_spec(entorno.caller),
                1 <= mes <= 12,
                pagos@ == datas(del_mes),
                forall|k: int| 0 <= k < del_mes.len() ==> club.pagos@.contains(#[trigger] del_mes[k]),
                forall|c: int|
                    0 <= c < 3 ==> #[trigger] recaudado(pagos@, categoria_en(*club), c) <= u128::MAX,
                i <= pagos@.len(),
                monto_categorias_mensual@.len() == 3,
                forall|c: int|
                    0 <= c < 3 ==> monto_categorias_mensual@[c] == recaudado(
                        pagos@.take(i as int),
                        categoria_en(*club),
                        c,
                    ),
            decreases pagos@.len() - i,
        {
            assert(pagos@.take(i + 1).drop_last() =~= pagos@.take(i as int));
            let d = pagos[i];
            if d.2.is_some() {
                proof {
                    assert(d == del_mes[i as int].data_spec());
                    assert(club.pagos@.contains(del_mes[i as int]));
                    let k = choose|k: int| 0 <= k < club.pagos@.len() && club.pagos@[k] == del_mes[i as int];
                    assert(1 <= club.pagos@[k].socio_id <= club.socios@.len());
                }
                let categoria = match club.get_data_socio_con_id(d.1, entorno) {
                    Ok(datos) => datos.4,
                    Err(_) => CategoriaClub::C,
                };
                let c = club.get_categoria_id(categoria) as usize;
                proof {
                    let cc = c as int;
                    lema_recaudado_prefijo(pagos@, categoria_en(*club), cc, i + 1);
                    assert(recaudado(pagos@, categoria_en(*club), cc) <= u128::MAX);
                }
                let actual = monto_categorias_mensual[c];
                monto_categorias_mensual.set(c, actual + d.4);
            }
            i = i + 1;
        }
        assert(pagos@.take(pagos@.len() as int) =~= pagos@);
        Ok(monto_categorias_mensual)
    }

    /// The member ids of the club's fees that are not overdue and whose member
    /// may attend activity `id_actividad`, in order of fee, without consecutive
    /// repetitions. The caller needs permission on the club, the activity must
    /// exist and every category needs its data.
    pub fn informe_no_morosos_de_actividad(&self, id_actividad: u32, entorno: &Entorno) -> (r: Result<
        Vec<u128>,
        Error,
    >)
        requires
            self.club_sem_rust.wf(),
        ensures
            !self.club_sem_rust.tiene_permiso_spec(entorno.caller) ==> r == Err::<Vec<u128>, Error>(
                Error::NoSePoseenLosPermisosSuficientes,
            ),
            self.club_sem_rust.tiene_permiso_spec(entorno.caller) && id_actividad >= 8 ==> r == Err::<
                Vec<u128>,
                Error,
            >(Error::ActividadInvalida),
            self.club_sem_rust.tiene_permiso_spec(entorno.caller) && id_actividad < 8 && !(forall|c: u32|
                c < 3 ==> self.club_sem_rust.tiene_datos_spec(c)) ==> r == Err::<Vec<u128>, Error>(
                Error::NoTodasLasCategoriasTienenData,
            ),
            self.club_sem_rust.tiene_permiso_spec(entorno.caller) && id_actividad < 8 && (forall|c: u32|
                c < 3 ==> self.club_sem_rust.tiene_datos_spec(c)) ==> (r matches Ok(v) && v@
                == sin_repetidos_consecutivos(
                socios_filtrados(
                    datas(self.club_sem_rust.pagos@),
                    al_dia_en(self.club_sem_rust, id_actividad, entorno.ahora),
                ),
            )),
    {
        let club = &self.club_sem_rust;
        if !club.tengo_permisos_suficientes_para_realizar_operaciones(entorno) {
            return Err(Error::NoSePoseenLosPermisosSuficientes)
        }
        if !club.existe_actividad_con_id(id_actividad) {
            return Err(Error::ActividadInvalida)
        }
        if !club.todas_las_categorias_tienen_sus_datas_cargadas() {
            return Err(Error::NoTodasLasCategoriasTienenData)
        }
        let pagos = match club.get_data_pagos(entorno) {
            Ok(p) => p,
            Err(_) => { return Err(Error::NoSePoseenLosPermisosSuficientes) },
        };
        assert(club.pagos.len() == club.pagos@.len());
        let mut res: Vec<u128> = Vec::new();
        let mut i: usize = 0;
        while i < pagos.len()
            invariant
                club.wf(),
                club.tiene_permiso_spec(entorno.caller),
                id_actividad < 8,
                forall|c: u32| c < 3 ==> club.tiene_datos_spec(c),
                club.pagos@.len() <= usize::MAX,
                pagos@ == datas(club.pagos@),
                i <= pagos@.len(),
                res@ == socios_filtrados(pagos@.take(i as int), al_dia_en(*club, id_actividad, entorno.ahora)),
            decreases pagos@.len() - i,
        {
            assert(pagos@.take(i + 1).drop_last() =~= pagos@.take(i as int));
            let d = pagos[i];
            assert(d == club.pagos@[i as int].data_spec());
            assert((d.0 as usize) as int == i);
            let vencido = match club.pago_esta_vencido(d.0, entorno) {
                Ok(v) => v,
                Err(_) => true,
            };
            if !vencido {
                proof {
                    let c = club.socio_spec(d.1).categoria.id_spec();
                    assert(club.tiene_datos_spec(c));
                }
                let permitida = match club.socio_tiene_permitida_la_asistencia_a(d.1, id_actividad) {
                    Ok(b) => b,
                    Err(_) => false,
                };
                if permitida {
                    res.push(d.1);
                }
            }
            i = i + 1;
        }
        assert(pagos@.take(pagos@.len() as int) =~= pagos@);
        Ok(quitar_repetidos_consecutivos(&res))
    }
}


/// A club of fixed data, whose clock reads 700: every caller has permission,
/// every activity exists, every category has data, every member may attend
/// every activity and is of category C.
pub struct ClubSemRustFake {}

/// The public data of a member: name, surname, national id, member id and category.
pub type DataSocioReporte = (String, String, u32, u128, Categoria);

/// The fees of the fixed club.
pub open spec fn pagos_fake() -> Seq<DataPago> {
    seq![
        (0u128, 9u128, None::<u64>, 800u64, 100u128, false),
        (1u128, 10u128, Some(700u64), 700u64, 101u128, true),
        (2u128, 11u128, None::<u64>, 700u64, 102u128, false),
        (3u128, 12u128, Some(800u64), 700u64, 103u128, true),
        (4u128, 13u128, None::<u64>, 600u64, 104u128, false),
        (5u128, 14u128, Some(600u64), 700u64, 105u128, true),
        (6u128, 15u128, None::<u64>, 700u64, 106u128, false),
        (7u128, 16u128, Some(700u64), 700u64, 107u128, true),
    ]
}

/// The fees of the fixed club that fall due in any month asked for.
pub open spec fn pagos_del_mes_fake() -> Seq<DataPago> {
    seq![
        (0u128, 4u128, None::<u64>, 800u64, 100u128, false),
        (1u128, 5u128, Some(700u64), 700u64, 101u128, true),
        (2u128, 6u128, None::<u64>, 700u64, 102u128, false),
        (3u128, 7u128, Some(800u64), 700u64, 103u128, true),
    ]
}

/// A fee of the fixed club is overdue when it was paid after its due date,
/// or it is unpaid and its due date is before 700.
pub open spec fn vencido_fake(d: DataPago) -> bool {
    match d.2 {
        Some(f) => f > d.3,
        None => 700 > d.3,
    }
}

pub open spec fn vencido_fake_fn() -> spec_fn(DataPago) -> bool {
    |d: DataPago| vencido_fake(d)
}

pub open spec fn no_vencido_fake_fn() -> spec_fn(DataPago) -> bool {
    |d: DataPago| !vencido_fake(d)
}

/// Every member of the fixed club is of category C.
pub open spec fn categoria_fake() -> spec_fn(u128) -> int {
    |socio_id: u128| 2int
}

proof fn lema_recaudado_acotado(pagos: Seq<DataPago>, categoria_de: spec_fn(u128) -> int, c: int)
    requires
        forall|i: int| 0 <= i < pagos.len() ==> (#[trigger] pagos[i]).4 <= 1000,
    ensures
        0 <= recaudado(pagos, categoria_de, c) <= 1000 * pagos.len(),
    decreases pagos.len(),
{
    if pagos.len() > 0 {
        let pre = pagos.drop_last();
        assert forall|i: int| 0 <= i < pre.len() implies (#[trigger] pre[i]).4 <= 1000 by {
            assert(pre[i] == pagos[i]);
        }
        lema_recaudado_acotado(pre, categoria_de, c);
        assert(pagos.last() == pagos[pagos.len() - 1]);
    }
}

impl ClubSemRustFake {
    pub fn new() -> (r: ClubSemRustFake) {
        ClubSemRustFake {  }
    }

    pub fn tengo_permisos_suficientes_para_realizar_operaciones(&self) -> (r: bool)
        ensures
            r,
    {
        true
    }

    pub fn cant_categorias(&self) -> (r: u32)
        ensures
            r == 3,
    {
        3
    }

    pub fn existe_actividad_con_id(&self, _id_actividad: u32) -> (r: bool)
        ensures
            r,
    {
        true
    }

    pub fn todas_las_categorias_tienen_sus_datas_cargadas(&self) -> (r: bool)
        ensures
            r,
    {
        true
    }

    pub fn socio_tiene_permitida_la_asistencia_a(&self, _socio_id: u128, _id_actividad: u32) -> (r: Result<
        bool,
        Error,
    >)
        ensures
            r == Ok::<bool, Error>(true),
    {
        Ok(true)
    }

    pub fn get_data_socio_con_id(&self, _socio_id: u128) -> (r: Result<DataSocioReporte, Error>)
        ensures
            r matches Ok(d) && d.0@.len() == 0 && d.1@.len() == 0 && d.2 == 0 && d.3 == 0 && d.4
                == Categoria::C,
    {
        Ok((String::new(), String::new(), 0, 0, Categoria::C))
    }

    /// The data of all the fees of the fixed club.
    pub fn get_data_pagos(&self) -> (r: Result<Vec<DataPago>, Error>)
        ensures
            r matches Ok(v) && v@ == pagos_fake(),
    {
        let mut v: Vec<DataPago> = Vec::new();
        v.push((0, 9, None, 800, 100, false));
        v.push((1, 10, Some(700), 700, 101, true));
        v.push((2, 11, None, 700, 102, false));
        v.push((3, 12, Some(800), 700, 103, true));
        v.push((4, 13, None, 600, 104, false));
        v.push((5, 14, Some(600), 700, 105, true));
        v.push((6, 15, None, 700, 106, false));
        v.push((7, 16, Some(700), 700, 107, true));
        assert(v@ =~= pagos_fake());
        Ok(v)
    }

    /// The data of the fees of the fixed club that fall due in a month.
    pub fn get_data_pagos_del_mes_y_anio(&self, _mes: i8, _anio: i64) -> (r: Result<Vec<DataPago>, Error>)
        ensures
            r matches Ok(v) && v@ == pagos_del_mes_fake(),
    {
        let mut v: Vec<DataPago> = Vec::new();
        v.push((0, 4, None, 800, 100, false));
        v.push((1, 5, Some(700), 700, 101, true));
        v.push((2, 6, None, 700, 102, false));
        v.push((3, 7, Some(800), 700, 103, true));
        assert(v@ =~= pagos_del_mes_fake());
        Ok(v)
    }

    /// Whether the fee with id `pago_id` of the fixed club is overdue.
    pub fn pago_esta_vencido(&self, pago_id: u128) -> (r: Result<bool, Error>)
        requires
            (pago_id as usize) < 8,
        ensures
            r == Ok::<bool, Error>(vencido_fake(pagos_fake()[(pago_id as usize) as int])),
    {
        let pago_id = pago_id as usize;
        let pagos = match self.get_data_pagos() {
            Ok(p) => p,
            Err(e) => { return Err(e) },
        };
        let pago = &pagos[pago_id];
        if let Some(fecha_de_pago) = pago.2 {
            return Ok(fecha_de_pago > pago.3)
        }
        return Ok(700 > pago.3);
    }

    pub fn get_categoria_id(&self, categoria: Categoria) -> (r: u32)
        ensures
            r == categoria.id_spec(),
    {
        categoria.discriminant()
    }
}

/// The reports over the fixed club.
pub struct ReportesClubSemRustFake {
    pub club_sem_rust: ClubSemRustFake,
}

impl ReportesClubSemRustFake {
    pub fn new(club_sem_rust: ClubSemRustFake) -> (r: ReportesClubSemRustFake) {
        ReportesClubSemRustFake { club_sem_rust }
    }

    /// The member id of every overdue fee of the fixed club, in order of fee.
    pub fn verificacion_de_pagos_morosos(&self) -> (r: Result<Vec<u128>, Error>)
        ensures
            r matches Ok(v) && v@ == socios_filtrados(pagos_fake(), vencido_fake_fn()),
    {
        let club = &self.club_sem_rust;
        if !club.tengo_permisos_suficientes_para_realizar_operaciones() {
            return Err(Error::NoSePoseenLosPermisosSuficientes)
        }
        let pagos = match club.get_data_pagos() {
            Ok(p) => p,
            Err(e) => { return Err(e) },
        };
        let mut ids: Vec<u128> = Vec::new();
        let mut i: usize = 0;
        while i < pagos.len()
            invariant
                pagos@ == pagos_fake(),
                i <= pagos@.len(),
                ids@ == socios_filtrados(pagos@.take(i as int), vencido_fake_fn()),
            decreases pagos@.len() - i,
        {
            assert(pagos@.take(i + 1).drop_last() =~= pagos@.take(i as int));
            let d = pagos[i];
            assert(pagos_fake()[i as int].0 == i);
            let vencido = match club.pago_esta_vencido(d.0) {
                Ok(v) => v,
                Err(_) => false,
            };
            if vencido {
                ids.push(d.1);
            }
            i = i + 1;
        }
        assert(pagos@.take(pagos@.len() as int) =~= pagos@);
        Ok(ids)
    }

    /// For each category, in order of id, the amounts of the paid fees of the
    /// month that belong to a member of that category, added up.
    pub fn informe_recaudacion_mensual(&self, mes: i8, anio: i64) -> (r: Result<Vec<u128>, Error>)
        ensures
            r matches Ok(v) && v@.len() == 3 && forall|c: int|
                0 <= c < 3 ==> v@[c] == recaudado(pagos_del_mes_fake(), categoria_fake(), c),
    {
        let club = &self.club_sem_rust;
        if !club.tengo_permisos_suficientes_para_realizar_operaciones() {
            return Err(Error::NoSePoseenLosPermisosSuficientes)
        }
        let pagos = match club.get_data_pagos_del_mes_y_anio(mes, anio) {
            Ok(p) => p,
            Err(_) => { return Err(Error::FechaInvalida) },
        };
        let cant_categorias = club.cant_categorias();
        let mut monto_categorias_mensual = ceros(cant_categorias);
        proof {
            assert forall|i: int| 0 <= i < pagos@.len() implies (#[trigger] pagos@[i]).4 <= 1000 by {
            }
        }
        let mut i: usize = 0;
        while i < pagos.len()
            invariant
                pagos@ == pagos_del_mes_fake(),
                forall|k: int| 0 <= k < pagos@.len() ==> (#[trigger] pagos@[k]).4 <= 1000,
                i <= pagos@.len(),
                monto_categorias_mensual@.len() == 3,
                forall|c: int|
                    0 <= c < 3 ==> monto_categorias_mensual@[c] == recaudado(
                        pagos@.take(i as int),
                        categoria_fake(),
                        c,
                    ),
            decreases pagos@.len() - i,
        {
            assert(pagos@.take(i + 1).drop_last() =~= pagos@.take(i as int));
            let d = pagos[i];
            if d.2.is_some() {
                let categoria = match club.get_data_socio_con_id(d.1) {
                    Ok(datos) => datos.4,
                    Err(_) => Categoria::C,
                };
                let c = club.get_categoria_id(categoria) as usize;
                proof {
                    assert forall|k: int| 0 <= k < pagos@.take(i + 1).len() implies (
                    #[trigger] pagos@.take(i + 1)[k]).4 <= 1000 by {
                        assert(pagos@.take(i + 1)[k] == pagos@[k]);
                    }
                    lema_recaudado_acotado(pagos@.take(i + 1), categoria_fake(), c as int);
                }
                let actual = monto_categorias_mensual[c];
                monto_categorias_mensual.set(c, actual + d.4);
            }
            i = i + 1;
        }
        assert(pagos@.take(pagos@.len() as int) =~= pagos@);
        Ok(monto_categorias_mensual)
    }

    /// The member ids of the fees of the fixed club that are not overdue (all
    /// its members may attend every activity), in order of fee, without
    /// consecutive repetitions.
    pub fn informe_no_morosos_de_actividad(&self, id_actividad: u32) -> (r: Result<Vec<u128>, Error>)
        ensures
            r matches Ok(v) && v@ == sin_repetidos_consecutivos(
                socios_filtrados(pagos_fake(), no_vencido_fake_fn()),
            ),
    {
        let club = &self.club_sem_rust;
        if !club.tengo_permisos_suficientes_para_realizar_operaciones() {
            return Err(Error::NoSePoseenLosPermisosSuficientes)
        }
        if !club.existe_actividad_con_id(id_actividad) {
            return Err(Error::ActividadInvalida)
        }
        if !club.todas_las_categorias_tienen_sus_datas_cargadas() {
            return Err(Error::NoTodasLasCategoriasTienenData)
        }
        let pagos = match club.get_data_pagos() {
            Ok(p) => p,
            Err(e) => { return Err(e) },
        };
        let mut res: Vec<u128> = Vec::new();
        let mut i: usize = 0;
        while i < pagos.len()
            invariant
                pagos@ == pagos_fake(),
                i <= pagos@.len(),
                res@ == socios_filtrados(pagos@.take(i as int), no_vencido_fake_fn()),
            decreases pagos@.len() - i,
        {
            assert(pagos@.take(i + 1).drop_last() =~= pagos@.take(i as int));
            let d = pagos[i];
            assert(pagos_fake()[i as int].0 == i);
            let vencido = match club.pago_esta_vencido(d.0) {
                Ok(v) => v,
                Err(_) => true,
            };
            if !vencido {
                let permitida = match club.socio_tiene_permitida_la_asistencia_a(d.1, id_actividad) {
                    Ok(b) => b,
                    Err(_) => false,
                };
                if permitida {
                    res.push(d.1);
                }
            }
            i = i + 1;
        }
        assert(pagos@.take(pagos@.len() as int) =~= pagos@);
        Ok(quitar_repetidos_consecutivos(&res))
    }
}

} // verus!
