//! Properties of the fees that the club issues, settles and reports: the
//! monthly fees carry the discount a member earns, a payment settles a fee of
//! the paying member, a month's fees are those due in that month of that year,
//! and the reports list exactly the fees that are, or are not, overdue.

use vstd::prelude::*;
use crate::fecha::{instante_de, Month};
use crate::leyes::ley_monto_de_la_cuota;
use crate::registro::{
    datas, pagos_del_mes, primer_sin_acreditar, lema_primer_sin_acreditar, vencido_spec, ClubSemRust,
    DataPago, Pago,
};
use crate::reportes::{al_dia_en, socios_filtrados, vencido_en};

verus! {

/// Every member before the first one without category data has data.
proof fn lema_socios_con_datos(club: ClubSemRust, i: int, j: int)
    requires
        0 <= i <= j < club.sin_datos_desde(i),
    ensures
        j < club.socios@.len(),
        club.tiene_datos_spec(club.socios@[j].categoria.id_spec()),
    decreases j - i,
{
    if i < club.socios@.len() && club.tiene_datos_spec(club.socios@[i].categoria.id_spec()) {
        if i < j {
            lema_socios_con_datos(club, i + 1, j);
        }
    }
}

/// Law: the fee that the monthly update issues to the member at position `k`
/// (one before the first member whose category has no data) is an unpaid fee
/// of that member, with the next fee id, and is the fee that creating a fee
/// for that member would give: the monthly cost of its category less the
/// discount percentage, marked as discounted, when the member earns the
/// discount; the full monthly cost, not discounted, when it does not.
pub proof fn ley_actualizacion_aplica_la_bonificacion(club: ClubSemRust, ahora: u64, k: int)
    requires
        club.wf(),
        club.es_momento_spec(ahora),
        0 <= k < club.primer_socio_sin_datos(),
    ensures
        ({
            let id = (k + 1) as u128;
            let p = club.pagos_tras_actualizacion(ahora)[club.pagos@.len() + k];
            let c = club.costo_spec(club.socio_spec(id).categoria.id_spec());
            let porcentaje = club.porcentaje_de_descuento_por_bonificacion;
            &&& club.pagos_tras_actualizacion(ahora).len() == club.pagos@.len()
                + club.primer_socio_sin_datos()
            &&& p.id == club.pagos@.len() + k
            &&& p.socio_id == id
            &&& p.fecha_de_pago is None
            &&& club.cumple_spec(id, ahora) ==> p.tiene_bonificacion && p.monto == c - c * porcentaje / 100
            &&& !club.cumple_spec(id, ahora) ==> !p.tiene_bonificacion && p.monto == c
            &&& p.monto == club.cuota_spec(id, p.fecha_de_vencimiento, ahora).monto
            &&& p.tiene_bonificacion == club.cuota_spec(id, p.fecha_de_vencimiento, ahora).tiene_bonificacion
        }),
{
    let id = (k + 1) as u128;
    lema_socios_con_datos(club, 0, k);
    assert(club.socio_spec(id) == club.socios@[k]);
    ley_monto_de_la_cuota(club, id, ahora);
    assert(club.pagos.len() == club.pagos@.len());
    assert(club.socios.len() == club.socios@.len());
    let s = club.pagos_tras_actualizacion(ahora);
    let p = s[club.pagos@.len() + k];
    assert(p == club.cuota_mensual(k, ahora));
    assert(p.id == club.pagos@.len() + k);
    assert(p.socio_id == id);
    let c = club.costo_spec(club.socio_spec(id).categoria.id_spec());
    if club.cumple_spec(id, ahora) {
        assert(p.monto == c - c * club.porcentaje_de_descuento_por_bonificacion / 100);
    } else {
        assert(p.monto == c);
    }
}

/// Law: a payment of member `socio_id` settles the oldest unpaid fee of that
/// member and no other fee: the fee found is unpaid and belongs to the
/// member, no earlier fee is an unpaid fee of the member, and marking it paid
/// changes only fees of the member. When none is found, the member has no
/// unpaid fee.
pub proof fn ley_pago_registrado_es_del_socio(pagos: Seq<Pago>, socio_id: u128, fecha: u64)
    ensures
        primer_sin_acreditar(pagos, socio_id) matches Some(i) ==> {
            &&& 0 <= i < pagos.len()
            &&& pagos[i].socio_id == socio_id
            &&& pagos[i].fecha_de_pago is None
            &&& forall|j: int|
                0 <= j < i ==> !((#[trigger] pagos[j]).socio_id == socio_id && pagos[j].fecha_de_pago is None)
            &&& forall|j: int|
                0 <= j < pagos.len() && pagos.update(i, Pago { fecha_de_pago: Some(fecha), ..pagos[i] })[j]
                    != #[trigger] pagos[j] ==> pagos[j].socio_id == socio_id
        },
        primer_sin_acreditar(pagos, socio_id) is None ==> forall|j: int|
            0 <= j < pagos.len() ==> !((#[trigger] pagos[j]).socio_id == socio_id && pagos[j].fecha_de_pago is None),
{
    lema_primer_sin_acreditar(pagos, socio_id, 0);
}

/// Law: the fees of a month are, in order, exactly the fees that fall due in
/// that month of that year.
pub proof fn ley_pagos_del_mes_y_anio(pagos: Seq<Pago>, mes: Month, anio: i64)
    ensures
        pagos_del_mes(pagos, mes, anio) == pagos.filter(
            |p: Pago|
                instante_de(p.fecha_de_vencimiento as i64).fecha.mes == mes && instante_de(
                    p.fecha_de_vencimiento as i64,
                ).fecha.anio == anio,
        ),
    decreases pagos.len(),
{
    reveal(Seq::filter);
    if pagos.len() > 0 {
        ley_pagos_del_mes_y_anio(pagos.drop_last(), mes, anio);
    }
}

/// The member ids picked from the data of the fees by a predicate on the
/// data are the member ids of the fees picked by the same predicate on fees.
proof fn lema_socios_filtrados(
    pagos: Seq<Pago>,
    en_datos: spec_fn(DataPago) -> bool,
    en_pagos: spec_fn(Pago) -> bool,
)
    requires
        forall|p: Pago| #[trigger] en_pagos(p) == en_datos(p.data_spec()),
    ensures
        socios_filtrados(datas(pagos), en_datos) == pagos.filter(en_pagos).map_values(|p: Pago| p.socio_id),
    decreases pagos.len(),
{
    reveal(Seq::filter);
    if pagos.len() > 0 {
        let pre = pagos.drop_last();
        lema_socios_filtrados(pre, en_datos, en_pagos);
        assert(datas(pagos).drop_last() =~= datas(pre));
        assert(datas(pagos).last() == pagos.last().data_spec());
        assert(en_pagos(pagos.last()) == en_datos(pagos.last().data_spec()));
        if en_pagos(pagos.last()) {
            assert(pre.filter(en_pagos).push(pagos.last()).map_values(|p: Pago| p.socio_id)
                =~= pre.filter(en_pagos).map_values(|p: Pago| p.socio_id).push(pagos.last().socio_id));
        }
    } else {
        assert(datas(pagos) =~= Seq::<DataPago>::empty());
        assert(pagos.filter(en_pagos).map_values(|p: Pago| p.socio_id) =~= Seq::<u128>::empty());
    }
}

/// Law: the overdue report lists, in order of fee, the member of every fee
/// that the club's overdue check finds overdue at the clock's instant, and
/// of no other fee.
pub proof fn ley_reporte_de_morosos(pagos: Seq<Pago>, ahora: u64)
    ensures
        socios_filtrados(datas(pagos), vencido_en(ahora)) == pagos.filter(|p: Pago| vencido_spec(p, ahora)).map_values(
            |p: Pago| p.socio_id,
        ),
{
    lema_socios_filtrados(pagos, vencido_en(ahora), |p: Pago| vencido_spec(p, ahora));
}

/// Law: the up-to-date report of an activity lists, in order of fee, the
/// member of every fee that the club's overdue check finds not overdue at the
/// clock's instant and whose member may attend the activity, and of no other
/// fee; a fee paid after it fell due never makes its member appear.
pub proof fn ley_reporte_de_no_morosos(club: ClubSemRust, id_actividad: u32, ahora: u64)
    ensures
        socios_filtrados(datas(club.pagos@), al_dia_en(club, id_actividad, ahora)) == club.pagos@.filter(
            |p: Pago| !vencido_spec(p, ahora) && club.permitida_spec(p.socio_id, id_actividad),
        ).map_values(|p: Pago| p.socio_id),
        ({
            let al_dia = club.pagos@.filter(
                |q: Pago| !vencido_spec(q, ahora) && club.permitida_spec(q.socio_id, id_actividad),
            );
            forall|i: int|
                0 <= i < al_dia.len() ==> !((#[trigger] al_dia[i]).fecha_de_pago matches Some(f) && f
                    > al_dia[i].fecha_de_vencimiento)
        }),
{
    let en_pagos = |p: Pago| !vencido_spec(p, ahora) && club.permitida_spec(p.socio_id, id_actividad);
    lema_socios_filtrados(club.pagos@, al_dia_en(club, id_actividad, ahora), en_pagos);
    broadcast use vstd::seq_lib::group_filter_ensures;
    assert(club.pagos@.filter(en_pagos).len() >= 0);
}

} // verus!
