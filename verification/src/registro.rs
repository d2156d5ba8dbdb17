use vstd::prelude::*;
use crate::cuenta::{contiene, AccountId};
use crate::fecha::{
    dias_desde_epoch, fecha_valida, instante_de, instante_menor, lema_segundos_acotados, lema_sumar_dias,
    ley_segundos_de_instante, limite_segundos,
    segundos_de, sumar_dias_spec, sumar_segundos_spec, FechaSpec, InstanteSpec, LocalDate,
    LocalDateTime, LocalTime, Month,
};

verus! {

/// The errors that the club's operations can return.
#[derive(Debug, Clone, Copy, PartialEq, Eq, Structural)]
pub enum Error {
    /// The member looked up is not registered in the club.
    SocioNoRegistrado,
    /// The activity id does not name an activity of the club.
    ActividadInvalida,
    /// The category id does not name a category of the club.
    CategoriaInvalida,
    /// The data of the category looked up was never loaded.
    CategoriaSinData,
    /// The payment looked up was never registered.
    PagoNoRegistrado,
    /// The payment to settle had already been paid.
    PagoYaPagado,
    /// The caller lacks the permissions that the operation needs.
    NoSePoseenLosPermisosSuficientes,
    /// Not enough time went by since the last monthly update.
    NoTranscurrioElTiempoNecesarioDesdeElUltimoLlamado,
    /// The member has no unpaid fee to settle.
    SocioNoPoseePagosSinAcreditar,
    /// The amount given does not match the fee to settle.
    MontoInvalido,
    /// The date given is not a real calendar date.
    FechaInvalida,
}


/// The categories of membership. A member of category B also picked one
/// activity that the category adds to those of its base list.
#[derive(Debug, Clone, Copy, PartialEq, Eq, Structural)]
pub enum Categoria {
    A,
    B { deporte_seleccionado_por_el_usuario: Actividad },
    C,
}

impl Categoria {
    /// Id of the category: its position among the variants.
    pub open spec fn id_spec(self) -> u32 {
        match self {
            Categoria::A => 0,
            Categoria::B { .. } => 1,
            Categoria::C => 2,
        }
    }

    /// Id of the category: its position among the variants.
    pub fn discriminant(&self) -> (r: u32)
        ensures
            r == self.id_spec(),
    {
        match self {
            Categoria::A => 0,
            Categoria::B { .. } => 1,
            Categoria::C => 2,
        }
    }
}

/// The activities of the club.
#[derive(Debug, Clone, Copy, PartialEq, Eq, Structural, Default)]
pub enum Actividad {
    #[default]
    Futbol,
    Gimnasio,
    Basquet,
    Rugby,
    Hockey,
    Natacion,
    Tenis,
    Paddle,
}

impl Actividad {
    /// Id of the activity: its position among the variants.
    pub open spec fn id_spec(self) -> u32 {
        match self {
            Actividad::Futbol => 0,
            Actividad::Gimnasio => 1,
            Actividad::Basquet => 2,
            Actividad::Rugby => 3,
            Actividad::Hockey => 4,
            Actividad::Natacion => 5,
            Actividad::Tenis => 6,
            Actividad::Paddle => 7,
        }
    }

    /// Id of the activity: its position among the variants.
    pub fn id(&self) -> (r: u32)
        ensures
            r == self.id_spec(),
    {
        match self {
            Actividad::Futbol => 0,
            Actividad::Gimnasio => 1,
            Actividad::Basquet => 2,
            Actividad::Rugby => 3,
            Actividad::Hockey => 4,
            Actividad::Natacion => 5,
            Actividad::Tenis => 6,
            Actividad::Paddle => 7,
        }
    }
}

/// Personal data of a member.
#[derive(Debug)]
pub struct DatosPersonalesSocio {
    pub nombre: String,
    pub apellido: String,
    pub dni: u32,
}

/// The data of a category: its id, its monthly fee and the activities that
/// all its members may attend.
#[derive(Debug)]
pub struct DatosCategoria {
    pub id: u32,
    pub costo_mensual_en_tokens: u128,
    pub actividades_accesibles_base: Vec<Actividad>,
}

/// A member: its id in the club, its category and its personal data.
#[derive(Debug)]
pub struct Socio {
    pub id: u128,
    pub categoria: Categoria,
    pub datos_personales: DatosPersonalesSocio,
}

/// A fee of a member: its id, the member, when it was paid (if it was), when
/// it falls due, its amount and whether it carries the discount.
#[derive(Debug, Clone, Copy, PartialEq, Eq)]
pub struct Pago {
    pub id: u128,
    pub socio_id: u128,
    pub fecha_de_pago: Option<u64>,
    pub fecha_de_vencimiento: u64,
    pub monto: u128,
    pub tiene_bonificacion: bool,
}

/// The public data of a fee: id, member, payment date, due date, amount and
/// whether it carries the discount.
pub type DataPago = (u128, u128, Option<u64>, u64, u128, bool);

impl Pago {
    pub open spec fn data_spec(self) -> DataPago {
        (
            self.id,
            self.socio_id,
            self.fecha_de_pago,
            self.fecha_de_vencimiento,
            self.monto,
            self.tiene_bonificacion,
        )
    }

    pub fn data(&self) -> (r: DataPago)
        ensures
            r == self.data_spec(),
    {
        (
            self.id,
            self.socio_id,
            self.fecha_de_pago,
            self.fecha_de_vencimiento,
            self.monto,
            self.tiene_bonificacion,
        )
    }
}

/// The kinds of ids that the club hands out.
#[derive(Debug, Clone, Copy, PartialEq, Eq)]
pub enum TipoId {
    Socio,
    Pago,
}

/// Counters of the club's tables.
#[derive(Debug)]
pub struct MappingLens {
    pub socios: u128,
}

/// Who calls an operation of the club, and when.
#[derive(Debug, Clone, Copy)]
pub struct Entorno {
    pub caller: AccountId,
    /// Seconds since the first of January of 1970.
    pub ahora: u64,
}

/// The club: its authorization policy, owner and editors, its members, the
/// data of its categories, the fees and the rules of the discount.
#[derive(Debug)]
pub struct ClubSemRust {
    /// When on, only the owner and the editors may operate; when off, anyone may.
    pub politica_de_autorizacion_activada: bool,
    pub duenio_account_id: AccountId,
    pub editores: Vec<AccountId>,
    /// The member with id `i` stands at position `i - 1`.
    pub socios: Vec<Socio>,
    /// The data of the category with id `i` stands at position `i`, once loaded.
    pub categorias_data: Vec<Option<DatosCategoria>>,
    /// The fee with id `i` stands at position `i`.
    pub pagos: Vec<Pago>,
    pub mapping_lens: MappingLens,
    pub cant_pagos_consecutivos_sin_atrasos_necesarios_para_descuento: u32,
    pub porcentaje_de_descuento_por_bonificacion: u32,
    /// Seconds since 1970 of the last monthly update.
    pub fecha_de_la_ultima_actualizacion: u64,
}

/// The fees of `pagos` that belong to member `socio_id`, in order.
pub open spec fn pagos_del_socio(pagos: Seq<Pago>, socio_id: u128) -> Seq<Pago>
    decreases pagos.len(),
{
    if pagos.len() == 0 {
        Seq::empty()
    } else if pagos.last().socio_id == socio_id {
        pagos_del_socio(pagos.drop_last(), socio_id).push(pagos.last())
    } else {
        pagos_del_socio(pagos.drop_last(), socio_id)
    }
}

/// A fee is overdue when it was paid after its due date, or when it is
/// unpaid and the instant `ahora` comes after the instant of its due date.
pub open spec fn vencido_spec(p: Pago, ahora: u64) -> bool {
    match p.fecha_de_pago {
        Some(f) => f > p.fecha_de_vencimiento,
        None => instante_menor(instante_de(p.fecha_de_vencimiento as i64), instante_de(ahora as i64)),
    }
}

/// A fee counts towards the discount when it carries no discount and is not overdue.
pub open spec fn pago_cumplido(p: Pago, ahora: u64) -> bool {
    !p.tiene_bonificacion && !vencido_spec(p, ahora)
}

/// How many of the last fees of `pagos`, counting back from the latest, count
/// towards the discount without a gap.
pub open spec fn racha(pagos: Seq<Pago>, ahora: u64) -> nat
    decreases pagos.len(),
{
    if pagos.len() == 0 {
        0
    } else if pago_cumplido(pagos.last(), ahora) {
        1 + racha(pagos.drop_last(), ahora)
    } else {
        0
    }
}

impl ClubSemRust {
    /// The invariant of the club's tables.
    pub open spec fn wf(&self) -> bool {
        &&& self.categorias_data@.len() == 3
        &&& forall|i: int|
            0 <= i < 3 && (#[trigger] self.categorias_data@[i]) is Some ==> self.categorias_data@[i].unwrap().id == i
        &&& forall|i: int| 0 <= i < self.socios@.len() ==> (#[trigger] self.socios@[i]).id == i + 1
        &&& self.mapping_lens.socios == self.socios@.len()
        &&& forall|i: int| 0 <= i < self.pagos@.len() ==> (#[trigger] self.pagos@[i]).id == i
        &&& forall|i: int|
            0 <= i < self.pagos@.len() ==> 1 <= (#[trigger] self.pagos@[i]).socio_id <= self.socios@.len()
        &&& self.porcentaje_de_descuento_por_bonificacion <= 99
    }

    pub open spec fn es_duenio_spec(&self, caller: AccountId) -> bool {
        self.duenio_account_id == caller
    }

    pub open spec fn es_editor_spec(&self, caller: AccountId) -> bool {
        self.editores@.contains(caller)
    }

    /// Anyone may operate when the policy is off; otherwise the owner and the editors.
    pub open spec fn tiene_permiso_spec(&self, caller: AccountId) -> bool {
        !self.politica_de_autorizacion_activada || self.es_duenio_spec(caller) || self.es_editor_spec(
            caller,
        )
    }

    pub open spec fn existe_socio_spec(&self, socio_id: u128) -> bool {
        1 <= socio_id <= self.socios@.len()
    }

    pub open spec fn socio_spec(&self, socio_id: u128) -> &Socio {
        &self.socios@[socio_id - 1]
    }

    pub open spec fn tiene_datos_spec(&self, id_categoria: u32) -> bool {
        id_categoria < 3 && self.categorias_data@[id_categoria as int] is Some
    }

    pub open spec fn costo_spec(&self, id_categoria: u32) -> u128 {
        self.categorias_data@[id_categoria as int].unwrap().costo_mensual_en_tokens
    }

    /// The member earns the discount on its next fee: its latest
    /// `cant_pagos_consecutivos_sin_atrasos_necesarios_para_descuento` fees all
    /// count towards it (with a count of zero: its latest fee does not, or it has none).
    pub open spec fn cumple_spec(&self, socio_id: u128, ahora: u64) -> bool {
        let n = self.cant_pagos_consecutivos_sin_atrasos_necesarios_para_descuento;
        let r = racha(pagos_del_socio(self.pagos@, socio_id), ahora);
        if n == 0 {
            r == 0
        } else {
            r >= n
        }
    }

    /// The state is the same but for the fees and the date of the last update.
    pub open spec fn mismas_tablas(&self, otro: &ClubSemRust) -> bool {
        &&& self.politica_de_autorizacion_activada == otro.politica_de_autorizacion_activada
        &&& self.duenio_account_id == otro.duenio_account_id
        &&& self.editores@ == otro.editores@
        &&& self.socios@ == otro.socios@
        &&& self.categorias_data@ == otro.categorias_data@
        &&& self.mapping_lens.socios == otro.mapping_lens.socios
        &&& self.cant_pagos_consecutivos_sin_atrasos_necesarios_para_descuento
            == otro.cant_pagos_consecutivos_sin_atrasos_necesarios_para_descuento
        &&& self.porcentaje_de_descuento_por_bonificacion == otro.porcentaje_de_descuento_por_bonificacion
    }

    /// A club owned by `duenio_account_id`, with no members, no category data
    /// and no fees; a discount over 99% is taken as 1%. Its last monthly
    /// update is the instant given by the clock.
    pub fn new(
        duenio_account_id: AccountId,
        cant_pagos_consecutivos_sin_atrasos_necesarios_para_descuento: u32,
        porcentaje_de_descuento_por_bonificacion: u32,
        politica_de_autorizacion_activada: bool,
        entorno: &Entorno,
    ) -> (r: ClubSemRust)
        ensures
            r.wf(),
            r.politica_de_autorizacion_activada == politica_de_autorizacion_activada,
            r.duenio_account_id == duenio_account_id,
            r.editores@.len() == 0,
            r.socios@.len() == 0,
            forall|i: int| 0 <= i < 3 ==> r.categorias_data@[i] is None,
            r.pagos@.len() == 0,
            r.cant_pagos_consecutivos_sin_atrasos_necesarios_para_descuento
                == cant_pagos_consecutivos_sin_atrasos_necesarios_para_descuento,
            r.porcentaje_de_descuento_por_bonificacion == if porcentaje_de_descuento_por_bonificacion > 99 {
                1
            } else {
                porcentaje_de_descuento_por_bonificacion
            },
            r.fecha_de_la_ultima_actualizacion == segundos_de(instante_de(entorno.ahora as i64)),
    {
        let mut porcentaje_de_descuento_por_bonificacion = porcentaje_de_descuento_por_bonificacion;
        if porcentaje_de_descuento_por_bonificacion > 99 {
            porcentaje_de_descuento_por_bonificacion = 1
        }
        let mut categorias_data: Vec<Option<DatosCategoria>> = Vec::new();
        categorias_data.push(None);
        categorias_data.push(None);
        categorias_data.push(None);
        let mut csr = ClubSemRust {
            politica_de_autorizacion_activada,
            duenio_account_id,
            editores: Vec::new(),
            socios: Vec::new(),
            categorias_data,
            pagos: Vec::new(),
            mapping_lens: MappingLens { socios: 0 },
            cant_pagos_consecutivos_sin_atrasos_necesarios_para_descuento,
            porcentaje_de_descuento_por_bonificacion,
            fecha_de_la_ultima_actualizacion: 0,
        };
        let ahora = LocalDateTime::now(entorno.ahora);
        proof {
            lema_segundos_acotados(entorno.ahora as i64);
        }
        csr.fecha_de_la_ultima_actualizacion = ahora.to_instant().seconds();
        csr
    }
}


/// The numbers `0, 1, ..., n - 1`, in order.
pub fn ids_hasta(n: u32) -> (r: Vec<u32>)
    ensures
        r@.len() == n,
        forall|i: int| 0 <= i < n ==> r@[i] == i,
{
    let mut ids: Vec<u32> = Vec::new();
    let mut i: u32 = 0;
    while i < n
        invariant
            i <= n,
            ids@.len() == i,
            forall|j: int| 0 <= j < i ==> ids@[j] == j,
        decreases n - i,
    {
        ids.push(i);
        i = i + 1;
    }
    ids
}

/// `x` is one of `v`.
pub fn contiene_id(v: &Vec<u32>, x: u32) -> (r: bool)
    ensures
        r == v@.contains(x),
{
    let mut i: usize = 0;
    while i < v.len()
        invariant
            i <= v.len(),
            forall|j: int| 0 <= j < i ==> v@[j] != x,
        decreases v.len() - i,
    {
        if v[i] == x {
            return true;
        }
        i = i + 1;
    }
    false
}

/// A copy of a list of activities.
pub fn copiar_actividades(v: &Vec<Actividad>) -> (r: Vec<Actividad>)
    ensures
        r@ == v@,
{
    let mut r: Vec<Actividad> = Vec::new();
    let mut i: usize = 0;
    while i < v.len()
        invariant
            i <= v.len(),
            r@ == v@.take(i as int),
        decreases v.len() - i,
    {
        r.push(v[i]);
        i = i + 1;
        assert(r@ =~= v@.take(i as int));
    }
    assert(v@.take(v@.len() as int) =~= v@);
    r
}

impl ClubSemRust {
    /// The caller may operate on the club.
    pub fn tiene_permiso(&self, entorno: &Entorno) -> (r: bool)
        ensures
            r == self.tiene_permiso_spec(entorno.caller),
    {
        !self.politica_de_autorizacion_activada || self.es_duenio(entorno) || self.es_editor(entorno)
    }

    /// The caller is the owner.
    pub fn es_duenio(&self, entorno: &Entorno) -> (r: bool)
        ensures
            r == self.es_duenio_spec(entorno.caller),
    {
        self.duenio_account_id.es_igual(&entorno.caller)
    }

    /// The caller is an editor.
    pub fn es_editor(&self, entorno: &Entorno) -> (r: bool)
        ensures
            r == self.es_editor_spec(entorno.caller),
    {
        contiene(&self.editores, &entorno.caller)
    }

    /// The next id of a fee (the number of fees), or of a member (the member
    /// counter, moved one forward).
    pub fn nueva_id(&mut self, tipo_id: TipoId) -> (r: u128)
        requires
            old(self).mapping_lens.socios < u128::MAX,
        ensures
            tipo_id == TipoId::Pago ==> r == old(self).pagos@.len() && *final(self) == *old(self),
            tipo_id == TipoId::Socio ==> r == old(self).mapping_lens.socios + 1
                && final(self).mapping_lens.socios == r && final(self).socios@ == old(self).socios@
                && final(self).pagos@ == old(self).pagos@ && final(self).editores@ == old(self).editores@
                && final(self).categorias_data@ == old(self).categorias_data@
                && final(self).politica_de_autorizacion_activada == old(self).politica_de_autorizacion_activada
                && final(self).duenio_account_id == old(self).duenio_account_id
                && final(self).cant_pagos_consecutivos_sin_atrasos_necesarios_para_descuento
                    == old(self).cant_pagos_consecutivos_sin_atrasos_necesarios_para_descuento
                && final(self).porcentaje_de_descuento_por_bonificacion == old(self).porcentaje_de_descuento_por_bonificacion
                && final(self).fecha_de_la_ultima_actualizacion == old(self).fecha_de_la_ultima_actualizacion,
    {
        match tipo_id {
            TipoId::Pago => { return self.pagos.len() as u128 },
            TipoId::Socio => {
                self.mapping_lens.socios = self.mapping_lens.socios + 1;
                return self.mapping_lens.socios
            },
        }
    }

    /// Hands the club over to `nuevo_duenio_account_id`; only the owner may.
    pub fn set_duenio(&mut self, nuevo_duenio_account_id: AccountId, entorno: &Entorno) -> (r: Result<
        (),
        Error,
    >)
        ensures
            !old(self).es_duenio_spec(entorno.caller) ==> r == Err::<(), Error>(
                Error::NoSePoseenLosPermisosSuficientes,
            ) && *final(self) == *old(self),
            old(self).es_duenio_spec(entorno.caller) ==> r is Ok && *final(self) == (ClubSemRust {
                duenio_account_id: nuevo_duenio_account_id,
                ..*old(self)
            }),
    {
        if !self.es_duenio(entorno) {
            return Err(Error::NoSePoseenLosPermisosSuficientes)
        }
        self.duenio_account_id = nuevo_duenio_account_id;
        return Ok(());
    }

    /// Turns the authorization policy on; only the owner may.
    pub fn activar_politica_de_autorizacion(&mut self, entorno: &Entorno) -> (r: Result<(), Error>)
        ensures
            !old(self).es_duenio_spec(entorno.caller) ==> r == Err::<(), Error>(
                Error::NoSePoseenLosPermisosSuficientes,
            ) && *final(self) == *old(self),
            old(self).es_duenio_spec(entorno.caller) ==> r is Ok && *final(self) == (ClubSemRust {
                politica_de_autorizacion_activada: true,
                ..*old(self)
            }),
    {
        if !self.es_duenio(entorno) {
            return Err(Error::NoSePoseenLosPermisosSuficientes)
        }
        self.politica_de_autorizacion_activada = true;
        Ok(())
    }

    /// Turns the authorization policy off; only the owner may.
    pub fn desactivar_politica_de_autorizacion(&mut self, entorno: &Entorno) -> (r: Result<(), Error>)
        ensures
            !old(self).es_duenio_spec(entorno.caller) ==> r == Err::<(), Error>(
                Error::NoSePoseenLosPermisosSuficientes,
            ) && *final(self) == *old(self),
            old(self).es_duenio_spec(entorno.caller) ==> r is Ok && *final(self) == (ClubSemRust {
                politica_de_autorizacion_activada: false,
                ..*old(self)
            }),
    {
        if !self.es_duenio(entorno) {
            return Err(Error::NoSePoseenLosPermisosSuficientes)
        }
        self.politica_de_autorizacion_activada = false;
        Ok(())
    }

    /// Sets how many consecutive fees paid on time earn the discount; only the owner may.
    pub fn set_cant_pagos_consecutivos_sin_atrasos_necesarios_para_descuento(
        &mut self,
        cant: u32,
        entorno: &Entorno,
    ) -> (r: Result<(), Error>)
        ensures
            !old(self).es_duenio_spec(entorno.caller) ==> r == Err::<(), Error>(
                Error::NoSePoseenLosPermisosSuficientes,
            ) && *final(self) == *old(self),
            old(self).es_duenio_spec(entorno.caller) ==> r is Ok && *final(self) == (ClubSemRust {
                cant_pagos_consecutivos_sin_atrasos_necesarios_para_descuento: cant,
                ..*old(self)
            }),
    {
        if !self.es_duenio(entorno) {
            return Err(Error::NoSePoseenLosPermisosSuficientes)
        }
        self.cant_pagos_consecutivos_sin_atrasos_necesarios_para_descuento = cant;
        Ok(())
    }

    /// Adds `nuevo_editor` to the editors; only the owner may.
    pub fn autorizar_editor(&mut self, nuevo_editor: AccountId, entorno: &Entorno) -> (r: Result<
        (),
        Error,
    >)
        ensures
            !old(self).es_duenio_spec(entorno.caller) ==> r == Err::<(), Error>(
                Error::NoSePoseenLosPermisosSuficientes,
            ) && *final(self) == *old(self),
            old(self).es_duenio_spec(entorno.caller) ==> r is Ok && (forall|a: AccountId|
                final(self).es_editor_spec(a) == (old(self).es_editor_spec(a) || a == nuevo_editor))
                && final(self).politica_de_autorizacion_activada == old(self).politica_de_autorizacion_activada
                && final(self).duenio_account_id == old(self).duenio_account_id
                && final(self).socios@ == old(self).socios@ && final(self).pagos@ == old(self).pagos@
                && final(self).categorias_data@ == old(self).categorias_data@
                && final(self).mapping_lens.socios == old(self).mapping_lens.socios
                && final(self).cant_pagos_consecutivos_sin_atrasos_necesarios_para_descuento
                    == old(self).cant_pagos_consecutivos_sin_atrasos_necesarios_para_descuento
                && final(self).porcentaje_de_descuento_por_bonificacion == old(self).porcentaje_de_descuento_por_bonificacion
                && final(self).fecha_de_la_ultima_actualizacion == old(self).fecha_de_la_ultima_actualizacion,
    {
        if !self.es_duenio(entorno) {
            return Err(Error::NoSePoseenLosPermisosSuficientes)
        }
        if !contiene(&self.editores, &nuevo_editor) {
            self.editores.push(nuevo_editor);
        }
        proof {
            assert forall|a: AccountId|
                self.es_editor_spec(a) == (old(self).es_editor_spec(a) || a == nuevo_editor) by {
                if old(self).es_editor_spec(a) {
                    let k = choose|k: int| 0 <= k < old(self).editores@.len() && old(self).editores@[k] == a;
                    assert(self.editores@[k] == a);
                }
                if a == nuevo_editor && !old(self).es_editor_spec(a) {
                    assert(self.editores@[self.editores@.len() - 1] == a);
                }
            }
        }
        return Ok(());
    }

    /// Removes `editor` from the editors; only the owner may.
    pub fn desautorizar_editor(&mut self, editor: AccountId, entorno: &Entorno) -> (r: Result<
        (),
        Error,
    >)
        ensures
            !old(self).es_duenio_spec(entorno.caller) ==> r == Err::<(), Error>(
                Error::NoSePoseenLosPermisosSuficientes,
            ) && *final(self) == *old(self),
            old(self).es_duenio_spec(entorno.caller) ==> r is Ok && (forall|a: AccountId|
                final(self).es_editor_spec(a) == (old(self).es_editor_spec(a) && a != editor))
                && final(self).politica_de_autorizacion_activada == old(self).politica_de_autorizacion_activada
                && final(self).duenio_account_id == old(self).duenio_account_id
                && final(self).socios@ == old(self).socios@ && final(self).pagos@ == old(self).pagos@
                && final(self).categorias_data@ == old(self).categorias_data@
                && final(self).mapping_lens.socios == old(self).mapping_lens.socios
                && final(self).cant_pagos_consecutivos_sin_atrasos_necesarios_para_descuento
                    == old(self).cant_pagos_consecutivos_sin_atrasos_necesarios_para_descuento
                && final(self).porcentaje_de_descuento_por_bonificacion == old(self).porcentaje_de_descuento_por_bonificacion
                && final(self).fecha_de_la_ultima_actualizacion == old(self).fecha_de_la_ultima_actualizacion,
    {
        if !self.es_duenio(entorno) {
            return Err(Error::NoSePoseenLosPermisosSuficientes)
        }
        let mut quedan: Vec<AccountId> = Vec::new();
        let mut i: usize = 0;
        while i < self.editores.len()
            invariant
                i <= self.editores@.len(),
                forall|a: AccountId|
                    quedan@.contains(a) == ((exists|k: int| 0 <= k < i && #[trigger] self.editores@[k] == a)
                        && a != editor),
            decreases self.editores@.len() - i,
        {
            let e = self.editores[i];
            let ghost antes = quedan@;
            if !e.es_igual(&editor) {
                quedan.push(e);
            }
            proof {
                assert forall|a: AccountId|
                    quedan@.contains(a) == ((exists|k: int| 0 <= k < i + 1 && #[trigger] self.editores@[k] == a)
                        && a != editor) by {
                    if quedan@.contains(a) {
                        let m = choose|m: int| 0 <= m < quedan@.len() && quedan@[m] == a;
                        if m < antes.len() {
                            assert(antes[m] == a);
                            assert(antes.contains(a));
                        } else {
                            assert(self.editores@[i as int] == a);
                        }
                    }
                    if (exists|k: int| 0 <= k < i + 1 && #[trigger] self.editores@[k] == a) && a != editor {
                        let k = choose|k: int| 0 <= k < i + 1 && #[trigger] self.editores@[k] == a;
                        if k < i {
                            assert(antes.contains(a));
                            let m = choose|m: int| 0 <= m < antes.len() && antes[m] == a;
                            assert(quedan@[m] == a);
                        } else {
                            assert(quedan@[quedan@.len() - 1] == a);
                        }
                    }
                }
            }
            i = i + 1;
        }
        proof {
            assert forall|a: AccountId|
                quedan@.contains(a) == (old(self).es_editor_spec(a) && a != editor) by {
                if old(self).es_editor_spec(a) {
                    let k = choose|k: int| 0 <= k < self.editores@.len() && self.editores@[k] == a;
                    assert(self.editores@[k] == a);
                }
            }
        }
        self.editores = quedan;
        return Ok(());
    }

    /// Loads (or replaces) the data of `categoria`; the caller needs permission.
    pub fn cargar_data_categoria(
        &mut self,
        categoria: Categoria,
        costo_mensual_en_tokens: u128,
        actividades_accesibles_base: Vec<Actividad>,
        entorno: &Entorno,
    ) -> (r: Result<(), Error>)
        requires
            old(self).wf(),
        ensures
            final(self).wf(),
            !old(self).tiene_permiso_spec(entorno.caller) ==> r == Err::<(), Error>(
                Error::NoSePoseenLosPermisosSuficientes,
            ) && *final(self) == *old(self),
            old(self).tiene_permiso_spec(entorno.caller) ==> r is Ok && final(self).categorias_data@
                == old(self).categorias_data@.update(
                categoria.id_spec() as int,
                Some(
                    DatosCategoria {
                        id: categoria.id_spec(),
                        costo_mensual_en_tokens,
                        actividades_accesibles_base,
                    },
                ),
            ) && final(self).mismas_tablas_salvo_categorias(old(self)),
    {
        if !self.tiene_permiso(entorno) {
            return Err(Error::NoSePoseenLosPermisosSuficientes);
        }
        let id = categoria.discriminant();
        self.categorias_data.set(
            id as usize,
            Some(DatosCategoria { id, costo_mensual_en_tokens, actividades_accesibles_base }),
        );
        Ok(())
    }

    /// The state is the same but for the category data.
    pub open spec fn mismas_tablas_salvo_categorias(&self, otro: &ClubSemRust) -> bool {
        &&& self.politica_de_autorizacion_activada == otro.politica_de_autorizacion_activada
        &&& self.duenio_account_id == otro.duenio_account_id
        &&& self.editores@ == otro.editores@
        &&& self.socios@ == otro.socios@
        &&& self.pagos@ == otro.pagos@
        &&& self.mapping_lens.socios == otro.mapping_lens.socios
        &&& self.cant_pagos_consecutivos_sin_atrasos_necesarios_para_descuento
            == otro.cant_pagos_consecutivos_sin_atrasos_necesarios_para_descuento
        &&& self.porcentaje_de_descuento_por_bonificacion == otro.porcentaje_de_descuento_por_bonificacion
        &&& self.fecha_de_la_ultima_actualizacion == otro.fecha_de_la_ultima_actualizacion
    }
}


impl ClubSemRust {
    /// The caller is the owner.
    pub fn soy_duenio(&self, entorno: &Entorno) -> (r: bool)
        ensures
            r == self.es_duenio_spec(entorno.caller),
    {
        self.es_duenio(entorno)
    }

    /// The caller may operate on the club.
    pub fn tengo_permisos_suficientes_para_realizar_operaciones(&self, entorno: &Entorno) -> (r: bool)
        ensures
            r == self.tiene_permiso_spec(entorno.caller),
    {
        self.tiene_permiso(entorno)
    }

    /// How many consecutive fees paid on time earn the discount.
    pub fn get_cant_pagos_consecutivos_sin_atrasos_necesarios_para_descuento(&mut self) -> (r: u32)
        ensures
            r == old(self).cant_pagos_consecutivos_sin_atrasos_necesarios_para_descuento,
            *final(self) == *old(self),
    {
        self.cant_pagos_consecutivos_sin_atrasos_necesarios_para_descuento
    }

    /// The id of `actividad`.
    pub fn get_actividad_id(&self, actividad: Actividad) -> (r: u32)
        ensures
            r == actividad.id_spec(),
    {
        actividad.id()
    }

    /// The ids of all the activities: `0..8`.
    pub fn get_ids_actividades(&self) -> (r: Vec<u32>)
        ensures
            r@.len() == 8,
            forall|i: int| 0 <= i < 8 ==> r@[i] == i,
    {
        ids_hasta(self.cant_actividades())
    }

    /// `id_actividad` is the id of an activity.
    pub fn existe_actividad_con_id(&self, id_actividad: u32) -> (r: bool)
        ensures
            r == (id_actividad < 8),
    {
        let ids = self.get_ids_actividades();
        if id_actividad < 8 {
            assert(ids@[id_actividad as int] == id_actividad);
        }
        contiene_id(&ids, id_actividad)
    }

    /// The number of activities of the club.
    pub fn cant_actividades(&self) -> (r: u32)
        ensures
            r == 8,
    {
        8
    }

    /// The id of `categoria`.
    pub fn get_categoria_id(&self, categoria: Categoria) -> (r: u32)
        ensures
            r == categoria.id_spec(),
    {
        categoria.discriminant()
    }

    /// The ids of all the categories: `0..3`.
    pub fn get_ids_categorias(&self) -> (r: Vec<u32>)
        ensures
            r@.len() == 3,
            forall|i: int| 0 <= i < 3 ==> r@[i] == i,
    {
        ids_hasta(self.cant_categorias())
    }

    /// `id_categoria` is the id of a category.
    pub fn existe_categoria_con_id(&self, id_categoria: u32) -> (r: bool)
        ensures
            r == (id_categoria < 3),
    {
        let ids = self.get_ids_categorias();
        if id_categoria < 3 {
            assert(ids@[id_categoria as int] == id_categoria);
        }
        contiene_id(&ids, id_categoria)
    }

    /// The number of categories of the club.
    pub fn cant_categorias(&self) -> (r: u32)
        ensures
            r == 3,
    {
        3
    }

    /// The data of category `id_categoria` was loaded.
    pub fn categoria_tiene_sus_datos_cargados(&self, id_categoria: u32) -> (r: bool)
        requires
            self.wf(),
        ensures
            r == self.tiene_datos_spec(id_categoria),
    {
        id_categoria < 3 && self.categorias_data[id_categoria as usize].is_some()
    }

    /// The data of every category was loaded.
    pub fn todas_las_categorias_tienen_sus_datas_cargadas(&self) -> (r: bool)
        requires
            self.wf(),
        ensures
            r == (forall|i: u32| i < 3 ==> self.tiene_datos_spec(i)),
    {
        let mut res = true;
        let ids = self.get_ids_categorias();
        let mut k: usize = 0;
        while k < ids.len()
            invariant
                self.wf(),
                ids@.len() == 3,
                forall|i: int| 0 <= i < 3 ==> ids@[i] == i,
                k <= 3,
                res == (forall|i: u32| i < k ==> self.tiene_datos_spec(i)),
            decreases 3 - k,
        {
            res = res && self.categoria_tiene_sus_datos_cargados(ids[k]);
            k = k + 1;
        }
        res
    }

    /// The id, monthly fee and base activities of category `id_categoria`.
    pub fn get_data_categoria_datos(&self, id_categoria: u32) -> (r: Result<(u32, u128, Vec<Actividad>), Error>)
        requires
            self.wf(),
        ensures
            id_categoria >= 3 ==> r == Err::<(u32, u128, Vec<Actividad>), Error>(Error::CategoriaInvalida),
            id_categoria < 3 && !self.tiene_datos_spec(id_categoria) ==> r == Err::<
                (u32, u128, Vec<Actividad>),
                Error,
            >(Error::CategoriaSinData),
            self.tiene_datos_spec(id_categoria) ==> (r matches Ok(d) && d.0 == id_categoria && d.1
                == self.costo_spec(id_categoria) && d.2@
                == self.categorias_data@[id_categoria as int].unwrap().actividades_accesibles_base@),
    {
        if !self.existe_categoria_con_id(id_categoria) {
            return Err(Error::CategoriaInvalida)
        }
        if !self.categoria_tiene_sus_datos_cargados(id_categoria) {
            return Err(Error::CategoriaSinData)
        }
        let binding = self.get_categoria_datos(id_categoria);
        match binding {
            Ok(data) => Ok((data.id, data.costo_mensual_en_tokens, data.actividades_accesibles_base)),
            Err(e) => Err(e),
        }
    }

    /// A copy of the data of category `id_categoria`.
    pub fn get_categoria_datos(&self, id_categoria: u32) -> (r: Result<DatosCategoria, Error>)
        requires
            self.wf(),
        ensures
            id_categoria >= 3 ==> r == Err::<DatosCategoria, Error>(Error::CategoriaInvalida),
            id_categoria < 3 && !self.tiene_datos_spec(id_categoria) ==> r == Err::<DatosCategoria, Error>(
                Error::CategoriaSinData,
            ),
            self.tiene_datos_spec(id_categoria) ==> (r matches Ok(d) && d.id == id_categoria
                && d.costo_mensual_en_tokens == self.costo_spec(id_categoria) && d.actividades_accesibles_base@
                == self.categorias_data@[id_categoria as int].unwrap().actividades_accesibles_base@),
    {
        if !self.existe_categoria_con_id(id_categoria) {
            return Err(Error::CategoriaInvalida)
        }
        if !self.categoria_tiene_sus_datos_cargados(id_categoria) {
            return Err(Error::CategoriaSinData)
        }
        match &self.categorias_data[id_categoria as usize] {
            Some(d) => Ok(
                DatosCategoria {
                    id: d.id,
                    costo_mensual_en_tokens: d.costo_mensual_en_tokens,
                    actividades_accesibles_base: copiar_actividades(&d.actividades_accesibles_base),
                },
            ),
            None => Err(Error::CategoriaSinData),
        }
    }
}


/// The public data of each fee of `pagos`, in order.
pub open spec fn datas(pagos: Seq<Pago>) -> Seq<DataPago> {
    pagos.map_values(|p: Pago| p.data_spec())
}

/// The fees of `pagos` that fall due in month `mes` of year `anio`.
pub open spec fn pagos_del_mes(pagos: Seq<Pago>, mes: Month, anio: i64) -> Seq<Pago>
    decreases pagos.len(),
{
    if pagos.len() == 0 {
        Seq::empty()
    } else if vence_en(pagos.last(), mes, anio) {
        pagos_del_mes(pagos.drop_last(), mes, anio).push(pagos.last())
    } else {
        pagos_del_mes(pagos.drop_last(), mes, anio)
    }
}

/// Fee `p` falls due in month `mes` of year `anio`.
pub open spec fn vence_en(p: Pago, mes: Month, anio: i64) -> bool {
    instante_de(p.fecha_de_vencimiento as i64).fecha.mes == mes && instante_de(
        p.fecha_de_vencimiento as i64,
    ).fecha.anio == anio
}

/// Fee `p` belongs to member `socio_id` and is unpaid.
pub open spec fn sin_acreditar(p: Pago, socio_id: u128) -> bool {
    p.socio_id == socio_id && p.fecha_de_pago is None
}

/// Position of the first unpaid fee of member `socio_id` in `pagos` at or after `i`.
pub open spec fn primer_sin_acreditar_desde(pagos: Seq<Pago>, socio_id: u128, i: int) -> Option<int>
    decreases pagos.len() - i,
{
    if i < 0 || i >= pagos.len() {
        None
    } else if sin_acreditar(pagos[i], socio_id) {
        Some(i)
    } else {
        primer_sin_acreditar_desde(pagos, socio_id, i + 1)
    }
}

/// Position of the first unpaid fee of member `socio_id` in `pagos`.
pub open spec fn primer_sin_acreditar(pagos: Seq<Pago>, socio_id: u128) -> Option<int> {
    primer_sin_acreditar_desde(pagos, socio_id, 0)
}

/// The position found is that of an unpaid fee of the member, and no fee
/// before it, from `j` on, is one.
pub proof fn lema_primer_sin_acreditar(pagos: Seq<Pago>, socio_id: u128, j: int)
    requires
        0 <= j,
    ensures
        primer_sin_acreditar_desde(pagos, socio_id, j) matches Some(i) ==> j <= i < pagos.len()
            && sin_acreditar(pagos[i], socio_id) && forall|k: int|
            j <= k < i ==> !sin_acreditar(#[trigger] pagos[k], socio_id),
        primer_sin_acreditar_desde(pagos, socio_id, j) is None ==> forall|k: int|
            j <= k < pagos.len() ==> !sin_acreditar(#[trigger] pagos[k], socio_id),
    decreases pagos.len() - j,
{
    if j < pagos.len() && !sin_acreditar(pagos[j], socio_id) {
        lema_primer_sin_acreditar(pagos, socio_id, j + 1);
    }
}

/// The fees that fall due in a month are fees of the list.
pub proof fn lema_pagos_del_mes(pagos: Seq<Pago>, mes: Month, anio: i64)
    ensures
        forall|i: int|
            0 <= i < pagos_del_mes(pagos, mes, anio).len() ==> pagos.contains(
                #[trigger] pagos_del_mes(pagos, mes, anio)[i],
            ),
    decreases pagos.len(),
{
    if pagos.len() > 0 {
        let pre = pagos.drop_last();
        lema_pagos_del_mes(pre, mes, anio);
        assert forall|i: int|
            0 <= i < pagos_del_mes(pagos, mes, anio).len() implies pagos.contains(
                #[trigger] pagos_del_mes(pagos, mes, anio)[i],
            ) by {
            if i < pagos_del_mes(pre, mes, anio).len() {
                let x = pagos_del_mes(pre, mes, anio)[i];
                assert(pagos_del_mes(pagos, mes, anio)[i] == x);
                let k = choose|k: int| 0 <= k < pre.len() && pre[k] == x;
                assert(pagos[k] == x);
            } else {
                assert(pagos_del_mes(pagos, mes, anio)[i] == pagos.last());
                assert(pagos[pagos.len() - 1] == pagos.last());
            }
        }
    }
}

/// The fees of a member are fees of the list, and all are the member's.
proof fn lema_pagos_del_socio(pagos: Seq<Pago>, socio_id: u128)
    ensures
        forall|i: int|
            0 <= i < pagos_del_socio(pagos, socio_id).len() ==> pagos.contains(
                #[trigger] pagos_del_socio(pagos, socio_id)[i],
            ) && pagos_del_socio(pagos, socio_id)[i].socio_id == socio_id,
        pagos_del_socio(pagos, socio_id).len() <= pagos.len(),
    decreases pagos.len(),
{
    if pagos.len() > 0 {
        let pre = pagos.drop_last();
        lema_pagos_del_socio(pre, socio_id);
        assert forall|i: int|
            0 <= i < pagos_del_socio(pagos, socio_id).len() implies pagos.contains(
                #[trigger] pagos_del_socio(pagos, socio_id)[i],
            ) && pagos_del_socio(pagos, socio_id)[i].socio_id == socio_id by {
            if i < pagos_del_socio(pre, socio_id).len() {
                let x = pagos_del_socio(pre, socio_id)[i];
                assert(pagos_del_socio(pagos, socio_id)[i] == x);
                let k = choose|k: int| 0 <= k < pre.len() && pre[k] == x;
                assert(pagos[k] == x);
            } else {
                assert(pagos_del_socio(pagos, socio_id)[i] == pagos.last());
                assert(pagos[pagos.len() - 1] == pagos.last());
            }
        }
    }
}

/// Appending fees of other members leaves the fees of a member as they were.
proof fn lema_pagos_del_socio_append(pagos: Seq<Pago>, otros: Seq<Pago>, socio_id: u128)
    requires
        forall|i: int| 0 <= i < otros.len() ==> (#[trigger] otros[i]).socio_id != socio_id,
    ensures
        pagos_del_socio(pagos + otros, socio_id) == pagos_del_socio(pagos, socio_id),
    decreases otros.len(),
{
    if otros.len() > 0 {
        let pre = otros.drop_last();
        lema_pagos_del_socio_append(pagos, pre, socio_id);
        assert((pagos + otros).drop_last() =~= pagos + pre);
        assert((pagos + otros).last() == otros.last());
    } else {
        assert(pagos + otros =~= pagos);
    }
}

/// Reading the streak from the latest fee back: it passes position `k` (from
/// the end) exactly when it reaches `k` and that fee counts.
proof fn lema_racha(pagos: Seq<Pago>, ahora: u64, k: int)
    requires
        0 <= k < pagos.len(),
    ensures
        (racha(pagos, ahora) > k) == (racha(pagos, ahora) >= k && pago_cumplido(pagos[pagos.len() - 1 - k], ahora)),
        racha(pagos, ahora) <= pagos.len(),
    decreases pagos.len(),
{
    lema_racha_acotada(pagos, ahora);
    if k > 0 {
        let pre = pagos.drop_last();
        lema_racha(pre, ahora, k - 1);
        assert(pre[pre.len() - 1 - (k - 1)] == pagos[pagos.len() - 1 - k]);
    }
}

proof fn lema_racha_acotada(pagos: Seq<Pago>, ahora: u64)
    ensures
        racha(pagos, ahora) <= pagos.len(),
    decreases pagos.len(),
{
    if pagos.len() > 0 {
        lema_racha_acotada(pagos.drop_last(), ahora);
    }
}

/// A copy of a list of fees.
pub fn copiar_pagos(v: &Vec<Pago>) -> (r: Vec<Pago>)
    ensures
        r@ == v@,
{
    let mut r: Vec<Pago> = Vec::new();
    let mut i: usize = 0;
    while i < v.len()
        invariant
            i <= v.len(),
            r@ == v@.take(i as int),
        decreases v.len() - i,
    {
        r.push(v[i]);
        i = i + 1;
        assert(r@ =~= v@.take(i as int));
    }
    assert(v@.take(v@.len() as int) =~= v@);
    r
}

/// The public data of each fee of `v`, in order.
pub fn datas_de(v: &Vec<Pago>) -> (r: Vec<DataPago>)
    ensures
        r@ == datas(v@),
{
    let mut r: Vec<DataPago> = Vec::new();
    let mut i: usize = 0;
    while i < v.len()
        invariant
            i <= v.len(),
            r@ == datas(v@.take(i as int)),
        decreases v.len() - i,
    {
        r.push(v[i].data());
        i = i + 1;
        assert(r@ =~= datas(v@.take(i as int)));
    }
    assert(v@.take(v@.len() as int) =~= v@);
    r
}

impl ClubSemRust {
    /// All the fees of the club; the caller needs permission.
    pub fn get_pagos(&self, entorno: &Entorno) -> (r: Result<Vec<Pago>, Error>)
        ensures
            !self.tiene_permiso_spec(entorno.caller) ==> r == Err::<Vec<Pago>, Error>(
                Error::NoSePoseenLosPermisosSuficientes,
            ),
            self.tiene_permiso_spec(entorno.caller) ==> (r matches Ok(v) && v@ == self.pagos@),
    {
        if !self.tiene_permiso(entorno) {
            return Err(Error::NoSePoseenLosPermisosSuficientes)
        }
        Ok(copiar_pagos(&self.pagos))
    }

    /// The public data of all the fees of the club; the caller needs permission.
    pub fn get_data_pagos(&self, entorno: &Entorno) -> (r: Result<Vec<DataPago>, Error>)
        ensures
            !self.tiene_permiso_spec(entorno.caller) ==> r == Err::<Vec<DataPago>, Error>(
                Error::NoSePoseenLosPermisosSuficientes,
            ),
            self.tiene_permiso_spec(entorno.caller) ==> (r matches Ok(v) && v@ == datas(self.pagos@)),
    {
        if !self.tiene_permiso(entorno) {
            return Err(Error::NoSePoseenLosPermisosSuficientes)
        }
        let binding = self.get_pagos(entorno);
        match binding {
            Ok(data) => Ok(datas_de(&data)),
            Err(e) => Err(e),
        }
    }

    /// A member with id `socio_id` is registered.
    pub fn existe_socio_con_id(&self, socio_id: u128) -> (r: bool)
        ensures
            r == self.existe_socio_spec(socio_id),
    {
        1 <= socio_id && socio_id <= self.socios.len() as u128
    }

    /// The member with id `socio_id`, if one is registered.
    pub fn get_socio_con_id(&self, socio_id: u128) -> (r: Option<&Socio>)
        ensures
            self.existe_socio_spec(socio_id) ==> r == Some(self.socio_spec(socio_id)),
            !self.existe_socio_spec(socio_id) ==> r is None,
    {
        assert(self.socios.len() == self.socios@.len());
        if self.existe_socio_con_id(socio_id) {
            let idx: usize = (socio_id - 1) as usize;
            assert(idx as int == socio_id - 1);
            Some(&self.socios[idx])
        } else {
            None
        }
    }

    /// The fees of member `socio_id`, in order; the caller needs permission.
    pub fn get_pagos_del_socio_con_id(&self, socio_id: u128, entorno: &Entorno) -> (r: Result<
        Vec<Pago>,
        Error,
    >)
        ensures
            !self.tiene_permiso_spec(entorno.caller) ==> r == Err::<Vec<Pago>, Error>(
                Error::NoSePoseenLosPermisosSuficientes,
            ),
            self.tiene_permiso_spec(entorno.caller) && !self.existe_socio_spec(socio_id) ==> r == Err::<
                Vec<Pago>,
                Error,
            >(Error::SocioNoRegistrado),
            self.tiene_permiso_spec(entorno.caller) && self.existe_socio_spec(socio_id) ==> (r matches Ok(
                v,
            ) && v@ == pagos_del_socio(self.pagos@, socio_id)),
    {
        if !self.tiene_permiso(entorno) {
            return Err(Error::NoSePoseenLosPermisosSuficientes)
        }
        if !self.existe_socio_con_id(socio_id) {
            return Err(Error::SocioNoRegistrado)
        }
        let mut res: Vec<Pago> = Vec::new();
        let mut i: usize = 0;
        while i < self.pagos.len()
            invariant
                i <= self.pagos@.len(),
                res@ == pagos_del_socio(self.pagos@.take(i as int), socio_id),
            decreases self.pagos@.len() - i,
        {
            let p = self.pagos[i];
            assert(self.pagos@.take(i + 1).drop_last() =~= self.pagos@.take(i as int));
            if p.socio_id == socio_id {
                res.push(p);
            }
            i = i + 1;
        }
        assert(self.pagos@.take(self.pagos@.len() as int) =~= self.pagos@);
        Ok(res)
    }

    /// The public data of the fees of member `socio_id`; the caller needs permission.
    pub fn get_data_pagos_del_socio_con_id(&self, socio_id: u128, entorno: &Entorno) -> (r: Result<
        Vec<DataPago>,
        Error,
    >)
        ensures
            !self.tiene_permiso_spec(entorno.caller) ==> r == Err::<Vec<DataPago>, Error>(
                Error::NoSePoseenLosPermisosSuficientes,
            ),
            self.tiene_permiso_spec(entorno.caller) && !self.existe_socio_spec(socio_id) ==> r == Err::<
                Vec<DataPago>,
                Error,
            >(Error::SocioNoRegistrado),
            self.tiene_permiso_spec(entorno.caller) && self.existe_socio_spec(socio_id) ==> (r matches Ok(
                v,
            ) && v@ == datas(pagos_del_socio(self.pagos@, socio_id))),
    {
        if !self.tiene_permiso(entorno) {
            return Err(Error::NoSePoseenLosPermisosSuficientes)
        }
        let binding = self.get_pagos_del_socio_con_id(socio_id, entorno);
        match binding {
            Ok(data) => Ok(datas_de(&data)),
            Err(e) => Err(e),
        }
    }

    /// Whether the fee with id `pago_id` (taken modulo the machine word) is
    /// overdue at the clock's instant.
    pub fn pago_esta_vencido(&self, pago_id: u128, entorno: &Entorno) -> (r: Result<bool, Error>)
        ensures
            (pago_id as usize) >= self.pagos@.len() ==> r == Err::<bool, Error>(Error::PagoNoRegistrado),
            (pago_id as usize) < self.pagos@.len() ==> r == Ok::<bool, Error>(
                vencido_spec(self.pagos@[(pago_id as usize) as int], entorno.ahora),
            ),
    {
        let pago_id = pago_id as usize;
        if self.pagos.len() <= pago_id {
            return Err(Error::PagoNoRegistrado);
        }
        let pago = &self.pagos[pago_id];
        if let Some(fecha_de_pago) = pago.fecha_de_pago {
            return Ok(fecha_de_pago > pago.fecha_de_vencimiento)
        }
        return Ok(LocalDateTime::now(entorno.ahora).es_posterior_a(&LocalDateTime::at(pago.fecha_de_vencimiento as i64)));
    }

    /// Whether member `socio_id` earns the discount on its next fee.
    pub fn socio_cumple_las_condiciones_para_obtener_la_bonificacion(
        &self,
        socio_id: u128,
        entorno: &Entorno,
    ) -> (r: Result<bool, Error>)
        requires
            self.wf(),
            self.cant_pagos_consecutivos_sin_atrasos_necesarios_para_descuento == 0 ==> pagos_del_socio(
                self.pagos@,
                socio_id,
            ).len() <= u32::MAX,
        ensures
            !self.tiene_permiso_spec(entorno.caller) ==> r == Err::<bool, Error>(
                Error::NoSePoseenLosPermisosSuficientes,
            ),
            self.tiene_permiso_spec(entorno.caller) && !self.existe_socio_spec(socio_id) ==> r == Err::<
                bool,
                Error,
            >(Error::SocioNoRegistrado),
            self.tiene_permiso_spec(entorno.caller) && self.existe_socio_spec(socio_id) ==> r == Ok::<
                bool,
                Error,
            >(self.cumple_spec(socio_id, entorno.ahora)),
    {
        if !self.tiene_permiso(entorno) {
            return Err(Error::NoSePoseenLosPermisosSuficientes);
        }
        if !self.existe_socio_con_id(socio_id) {
            return Err(Error::SocioNoRegistrado)
        }
        let pagos = match self.get_pagos_del_socio_con_id(socio_id, entorno) {
            Ok(p) => p,
            Err(e) => { return Err(e) },
        };
        let ghost s = pagos@;
        let ghost racha_total = racha(s, entorno.ahora);
        let n = self.cant_pagos_consecutivos_sin_atrasos_necesarios_para_descuento;
        proof {
            lema_pagos_del_socio(self.pagos@, socio_id);
            lema_racha_acotada(s, entorno.ahora);
        }
        let total = self.pagos.len();
        let mut cant_pagos_del_usuario: u32 = 0;
        let mut cant_pagos_del_usuario_que_cumplen_la_condicion: u32 = 0;
        let mut terminado = false;
        let mut k: usize = 0;
        while k < pagos.len() && !terminado
            invariant
                self.wf(),
                self.tiene_permiso_spec(entorno.caller),
                pagos@ == s,
                s == pagos_del_socio(self.pagos@, socio_id),
                n == self.cant_pagos_consecutivos_sin_atrasos_necesarios_para_descuento,
                n == 0 ==> s.len() <= u32::MAX,
                total == self.pagos@.len(),
                racha_total == racha(s, entorno.ahora),
                racha_total <= s.len(),
                forall|i: int| 0 <= i < s.len() ==> self.pagos@.contains(#[trigger] s[i]),
                k <= s.len(),
                !terminado ==> cant_pagos_del_usuario == k && cant_pagos_del_usuario_que_cumplen_la_condicion
                    == k && racha_total >= k && (n == 0 || k < n),
                terminado ==> cant_pagos_del_usuario_que_cumplen_la_condicion == if n == 0 {
                    racha_total
                } else if racha_total < n {
                    racha_total
                } else {
                    n as nat
                },
            decreases s.len() - k,
        {
            let pago = pagos[pagos.len() - 1 - k];
            proof {
                lema_racha(s, entorno.ahora, k as int);
                assert(self.pagos@.contains(s[s.len() - 1 - k]));
                let j = choose|j: int| 0 <= j < self.pagos@.len() && self.pagos@[j] == pago;
                assert(self.pagos@[j].id == j);
                assert((pago.id as usize) as int == j);
            }
            cant_pagos_del_usuario = cant_pagos_del_usuario + 1;
            let vencido = match self.pago_esta_vencido(pago.id, entorno) {
                Ok(v) => v,
                Err(_) => true,
            };
            assert(vencido == vencido_spec(pago, entorno.ahora));
            if !pago.tiene_bonificacion && !vencido {
                cant_pagos_del_usuario_que_cumplen_la_condicion = cant_pagos_del_usuario_que_cumplen_la_condicion
                    + 1;
            }
            if cant_pagos_del_usuario == n || cant_pagos_del_usuario
                > cant_pagos_del_usuario_que_cumplen_la_condicion {
                terminado = true;
            }
            k = k + 1;
        }
        if !terminado {
            assert(racha_total == s.len());
        }
        Ok(cant_pagos_del_usuario_que_cumplen_la_condicion == n)
    }
}


impl ClubSemRust {
    /// The amount of the next fee of member `socio_id`: the monthly fee of its
    /// category, less the discount when the member earns it.
    pub open spec fn monto_spec(&self, socio_id: u128, ahora: u64) -> int {
        let c = self.costo_spec(self.socio_spec(socio_id).categoria.id_spec());
        if self.cumple_spec(socio_id, ahora) {
            c - c * self.porcentaje_de_descuento_por_bonificacion / 100
        } else {
            c as int
        }
    }

    /// The next fee of member `socio_id`, falling due at second `vencimiento`.
    pub open spec fn cuota_spec(&self, socio_id: u128, vencimiento: u64, ahora: u64) -> Pago {
        Pago {
            id: self.pagos@.len() as u128,
            socio_id,
            fecha_de_pago: None,
            fecha_de_vencimiento: vencimiento,
            monto: self.monto_spec(socio_id, ahora) as u128,
            tiene_bonificacion: self.cumple_spec(socio_id, ahora),
        }
    }

    /// When member `socio_id` is registered and its category has data, the
    /// next fee of the member can be computed: with a streak length of zero
    /// its fees can be counted in 32 bits, and the discount, when the member
    /// earns it, stays within 128 bits.
    pub open spec fn cuota_calculable(&self, socio_id: u128, ahora: u64) -> bool {
        let id_categoria = self.socio_spec(socio_id).categoria.id_spec();
        self.existe_socio_spec(socio_id) && self.tiene_datos_spec(id_categoria) ==> {
            &&& self.historial_acotado(socio_id)
            &&& self.cumple_spec(socio_id, ahora) ==> self.costo_spec(id_categoria)
                * self.porcentaje_de_descuento_por_bonificacion <= u128::MAX
        }
    }

    /// With a streak length of zero, the fees of member `socio_id` can be
    /// counted in 32 bits.
    pub open spec fn historial_acotado(&self, socio_id: u128) -> bool {
        self.cant_pagos_consecutivos_sin_atrasos_necesarios_para_descuento == 0 ==> pagos_del_socio(
            self.pagos@,
            socio_id,
        ).len() <= u32::MAX
    }

    /// Adds a fee for member `socio_id`, falling due at `fecha_de_vencimiento`,
    /// of the monthly fee of its category, with the discount when the member
    /// earns it. The caller needs permission.
    pub fn crear_cuota_para_socio(
        &mut self,
        socio_id: u128,
        fecha_de_vencimiento: LocalDateTime,
        entorno: &Entorno,
    ) -> (r: Result<(), Error>)
        requires
            old(self).wf(),
            fecha_de_vencimiento.local_date.wf(),
            fecha_de_vencimiento.local_date.year >= 1970,
            segundos_de(fecha_de_vencimiento@) <= u64::MAX,
            old(self).cuota_calculable(socio_id, entorno.ahora),
        ensures
            final(self).wf(),
            !old(self).tiene_permiso_spec(entorno.caller) ==> r == Err::<(), Error>(
                Error::NoSePoseenLosPermisosSuficientes,
            ) && *final(self) == *old(self),
            old(self).tiene_permiso_spec(entorno.caller) && !old(self).existe_socio_spec(socio_id) ==> r
                == Err::<(), Error>(Error::SocioNoRegistrado) && *final(self) == *old(self),
            old(self).tiene_permiso_spec(entorno.caller) && old(self).existe_socio_spec(socio_id)
                && !old(self).tiene_datos_spec(old(self).socio_spec(socio_id).categoria.id_spec()) ==> r
                == Err::<(), Error>(Error::CategoriaSinData) && *final(self) == *old(self),
            old(self).tiene_permiso_spec(entorno.caller) && old(self).existe_socio_spec(socio_id)
                && old(self).tiene_datos_spec(old(self).socio_spec(socio_id).categoria.id_spec()) ==> r
                is Ok && final(self).pagos@ == old(self).pagos@.push(
                old(self).cuota_spec(
                    socio_id,
                    segundos_de(fecha_de_vencimiento@) as u64,
                    entorno.ahora,
                ),
            ) && final(self).mismas_tablas(old(self)) && final(self).fecha_de_la_ultima_actualizacion
                == old(self).fecha_de_la_ultima_actualizacion,
    {
        if !self.tiene_permiso(entorno) {
            return Err(Error::NoSePoseenLosPermisosSuficientes);
        }
        if !self.existe_socio_con_id(socio_id) {
            return Err(Error::SocioNoRegistrado)
        }
        let id_categoria_del_usuario = match self.get_socio_con_id(socio_id) {
            Some(socio) => socio.categoria.discriminant(),
            None => { return Err(Error::SocioNoRegistrado) },
        };
        if !self.categoria_tiene_sus_datos_cargados(id_categoria_del_usuario) {
            return Err(Error::CategoriaSinData);
        }
        let mut monto_cuota = match self.get_categoria_datos(id_categoria_del_usuario) {
            Ok(d) => d.costo_mensual_en_tokens,
            Err(e) => { return Err(e) },
        };
        let cumple_las_condiciones_para_obtener_la_bonificacion =
            match self.socio_cumple_las_condiciones_para_obtener_la_bonificacion(socio_id, entorno) {
            Ok(c) => c,
            Err(e) => { return Err(e) },
        };
        let porcentaje = self.porcentaje_de_descuento_por_bonificacion as u128;
        if cumple_las_condiciones_para_obtener_la_bonificacion {
            assert(monto_cuota * porcentaje / 100 <= monto_cuota) by (nonlinear_arith)
                requires
                    porcentaje <= 99,
            ;
            monto_cuota = monto_cuota - monto_cuota * porcentaje / 100;
        }
        assert(self.socios.len() == self.socios@.len());
        let id = self.nueva_id(TipoId::Pago);
        let cuota = Pago {
            id,
            socio_id,
            fecha_de_pago: None,
            fecha_de_vencimiento: fecha_de_vencimiento.to_instant().seconds(),
            monto: monto_cuota,
            tiene_bonificacion: cumple_las_condiciones_para_obtener_la_bonificacion,
        };
        self.pagos.push(cuota);
        proof {
            assert forall|i: int| 0 <= i < self.pagos@.len() implies (#[trigger] self.pagos@[i]).id == i
                && 1 <= self.pagos@[i].socio_id <= self.socios@.len() by {
                if i < old(self).pagos@.len() {
                    assert(self.pagos@[i] == old(self).pagos@[i]);
                }
            }
        }
        Ok(())
    }

    /// Marks the fee with id `pago_id` (taken modulo the machine word) as paid
    /// at the clock's instant. The caller needs permission.
    pub fn marcar_pago_pagado(&mut self, pago_id: u128, entorno: &Entorno) -> (r: Result<(), Error>)
        requires
            old(self).wf(),
        ensures
            final(self).wf(),
            !old(self).tiene_permiso_spec(entorno.caller) ==> r == Err::<(), Error>(
                Error::NoSePoseenLosPermisosSuficientes,
            ) && *final(self) == *old(self),
            old(self).tiene_permiso_spec(entorno.caller) && (pago_id as usize) >= old(self).pagos@.len()
                ==> r == Err::<(), Error>(Error::PagoNoRegistrado) && *final(self) == *old(self),
            old(self).tiene_permiso_spec(entorno.caller) && (pago_id as usize) < old(self).pagos@.len()
                && old(self).pagos@[(pago_id as usize) as int].fecha_de_pago is Some ==> r == Err::<(), Error>(
                Error::PagoYaPagado,
            ) && *final(self) == *old(self),
            old(self).tiene_permiso_spec(entorno.caller) && (pago_id as usize) < old(self).pagos@.len()
                && old(self).pagos@[(pago_id as usize) as int].fecha_de_pago is None ==> r is Ok
                && final(self).pagos@ == old(self).pagos@.update(
                (pago_id as usize) as int,
                Pago {
                    fecha_de_pago: Some(segundos_de(instante_de(entorno.ahora as i64)) as u64),
                    ..old(self).pagos@[(pago_id as usize) as int]
                },
            ) && final(self).mismas_tablas(old(self)) && final(self).fecha_de_la_ultima_actualizacion
                == old(self).fecha_de_la_ultima_actualizacion,
    {
        if !self.tiene_permiso(entorno) {
            return Err(Error::NoSePoseenLosPermisosSuficientes);
        }
        let pago_id = pago_id as usize;
        if self.pagos.len() <= pago_id {
            return Err(Error::PagoNoRegistrado);
        }
        if self.pagos[pago_id].fecha_de_pago.is_some() {
            return Err(Error::PagoYaPagado);
        }
        proof {
            lema_segundos_acotados(entorno.ahora as i64);
        }
        let mut pago = self.pagos[pago_id];
        pago.fecha_de_pago = Some(LocalDateTime::now(entorno.ahora).to_instant().seconds());
        self.pagos.set(pago_id, pago);
        proof {
            assert forall|i: int| 0 <= i < self.pagos@.len() implies (#[trigger] self.pagos@[i]).id == i
                && 1 <= self.pagos@[i].socio_id <= self.socios@.len() by {
                if i != pago_id {
                    assert(self.pagos@[i] == old(self).pagos@[i]);
                }
            }
        }
        Ok(())
    }

    /// The first unpaid fee of member `socio_id`, if it has one.
    pub fn get_primer_pago_sin_acreditar(&self, socio_id: u128) -> (r: Option<Pago>)
        ensures
            primer_sin_acreditar(self.pagos@, socio_id) is None ==> r is None,
            primer_sin_acreditar(self.pagos@, socio_id) matches Some(i) ==> r == Some(self.pagos@[i]),
            primer_sin_acreditar(self.pagos@, socio_id) matches Some(i) ==> 0 <= i < self.pagos@.len(),
    {
        let mut i: usize = 0;
        while i < self.pagos.len()
            invariant
                i <= self.pagos@.len(),
                primer_sin_acreditar(self.pagos@, socio_id) == primer_sin_acreditar_desde(
                    self.pagos@,
                    socio_id,
                    i as int,
                ),
            decreases self.pagos@.len() - i,
        {
            let p = self.pagos[i];
            if p.socio_id == socio_id && p.fecha_de_pago.is_none() {
                return Some(p);
            }
            i = i + 1;
        }
        None
    }

    /// The first unpaid fee of member `socio_id`.
    pub fn get_primer_pago_sin_acreditar_del_socio_con_id(&self, socio_id: u128) -> (r: Result<
        Pago,
        Error,
    >)
        ensures
            !self.existe_socio_spec(socio_id) ==> r == Err::<Pago, Error>(Error::SocioNoRegistrado),
            self.existe_socio_spec(socio_id) && primer_sin_acreditar(self.pagos@, socio_id) is None ==> r
                == Err::<Pago, Error>(Error::SocioNoPoseePagosSinAcreditar),
            self.existe_socio_spec(socio_id) ==> (primer_sin_acreditar(self.pagos@, socio_id) matches Some(
                i,
            ) ==> r == Ok::<Pago, Error>(self.pagos@[i])),
    {
        if !self.existe_socio_con_id(socio_id) {
            return Err(Error::SocioNoRegistrado)
        }
        match self.get_primer_pago_sin_acreditar(socio_id) {
            Some(pago) => Ok(pago),
            None => Err(Error::SocioNoPoseePagosSinAcreditar),
        }
    }

    /// The public data of the first unpaid fee of member `socio_id`; the
    /// caller needs permission.
    pub fn get_data_primer_pago_sin_acreditar_del_socio_con_id(
        &self,
        socio_id: u128,
        entorno: &Entorno,
    ) -> (r: Result<DataPago, Error>)
        ensures
            !self.tiene_permiso_spec(entorno.caller) ==> r == Err::<DataPago, Error>(
                Error::NoSePoseenLosPermisosSuficientes,
            ),
            self.tiene_permiso_spec(entorno.caller) && !self.existe_socio_spec(socio_id) ==> r == Err::<
                DataPago,
                Error,
            >(Error::SocioNoRegistrado),
            self.tiene_permiso_spec(entorno.caller) && self.existe_socio_spec(socio_id) && primer_sin_acreditar(
                self.pagos@,
                socio_id,
            ) is None ==> r == Err::<DataPago, Error>(Error::SocioNoPoseePagosSinAcreditar),
            self.tiene_permiso_spec(entorno.caller) && self.existe_socio_spec(socio_id) ==> (
            primer_sin_acreditar(self.pagos@, socio_id) matches Some(i) ==> r == Ok::<DataPago, Error>(
                self.pagos@[i].data_spec(),
            )),
    {
        if !self.tiene_permiso(entorno) {
            return Err(Error::NoSePoseenLosPermisosSuficientes)
        }
        if !self.existe_socio_con_id(socio_id) {
            return Err(Error::SocioNoRegistrado)
        }
        match self.get_primer_pago_sin_acreditar_del_socio_con_id(socio_id) {
            Ok(pago) => Ok(pago.data()),
            Err(e) => Err(e),
        }
    }

    /// Midnight of day `dia` of month `mes` (January is 1) of year `anio`, if
    /// that is a calendar date.
    pub fn construir_fecha_midnight(anio: i64, mes: i8, dia: i8) -> (r: Result<LocalDateTime, Error>)
        ensures
            1 <= mes <= 12 && fecha_valida(anio as int, Month::de_indice(mes - 1), dia as int) ==> r
                == Ok::<LocalDateTime, Error>(
                LocalDateTime {
                    local_date: LocalDate { year: anio, month: Month::de_indice(mes - 1), day: dia },
                    local_time: LocalTime { segundos: 0 },
                },
            ),
            !(1 <= mes <= 12 && fecha_valida(anio as int, Month::de_indice(mes - 1), dia as int)) ==> r
                == Err::<LocalDateTime, Error>(Error::FechaInvalida),
    {
        let mes = match Month::from_one(mes) {
            Ok(m) => m,
            Err(_) => { return Err(Error::FechaInvalida) },
        };
        let local_date = match LocalDate::ymd(anio, mes, dia) {
            Ok(d) => d,
            Err(_) => { return Err(Error::FechaInvalida) },
        };
        Ok(LocalDateTime::new(local_date, LocalTime::midnight()))
    }

    /// It is time for another monthly update when no update was made in the
    /// clock's month of the clock's year.
    pub open spec fn es_momento_spec(&self, ahora: u64) -> bool {
        let actual = instante_de(ahora as i64).fecha;
        let ultima = instante_de(self.fecha_de_la_ultima_actualizacion as i64).fecha;
        actual.mes != ultima.mes || actual.anio != ultima.anio
    }

    /// It is time for another monthly update.
    pub fn es_momento_de_otra_actualizacion(&self, entorno: &Entorno) -> (r: bool)
        ensures
            r == self.es_momento_spec(entorno.ahora),
    {
        let actual = LocalDateTime::now(entorno.ahora).date();
        let ultima = LocalDateTime::at(self.fecha_de_la_ultima_actualizacion as i64).date();
        !(actual.month() == ultima.month() && actual.year() == ultima.year())
    }

    /// The fees that fall due in the month and year of `mes_y_anio`; the
    /// caller needs permission.
    pub fn get_pagos_del_mes_y_anio(&self, mes_y_anio: LocalDateTime, entorno: &Entorno) -> (r: Result<
        Vec<Pago>,
        Error,
    >)
        ensures
            !self.tiene_permiso_spec(entorno.caller) ==> r == Err::<Vec<Pago>, Error>(
                Error::NoSePoseenLosPermisosSuficientes,
            ),
            self.tiene_permiso_spec(entorno.caller) ==> (r matches Ok(v) && v@ == pagos_del_mes(
                self.pagos@,
                mes_y_anio.local_date.month,
                mes_y_anio.local_date.year,
            )),
    {
        if !self.tiene_permiso(entorno) {
            return Err(Error::NoSePoseenLosPermisosSuficientes)
        }
        let mes = mes_y_anio.date().month();
        let anio = mes_y_anio.date().year();
        let mut res: Vec<Pago> = Vec::new();
        let mut i: usize = 0;
        while i < self.pagos.len()
            invariant
                i <= self.pagos@.len(),
                mes == mes_y_anio.local_date.month,
                anio == mes_y_anio.local_date.year,
                res@ == pagos_del_mes(self.pagos@.take(i as int), mes, anio),
            decreases self.pagos@.len() - i,
        {
            let p = self.pagos[i];
            assert(self.pagos@.take(i + 1).drop_last() =~= self.pagos@.take(i as int));
            let venc = LocalDateTime::at(p.fecha_de_vencimiento as i64).date();
            if venc.month() == mes && venc.year() == anio {
                res.push(p);
            }
            i = i + 1;
        }
        assert(self.pagos@.take(self.pagos@.len() as int) =~= self.pagos@);
        Ok(res)
    }

    /// The public data of the fees that fall due in month `mes` (January is 1)
    /// of year `anio`; the caller needs permission.
    pub fn get_data_pagos_del_mes_y_anio(&self, mes: i8, anio: i64, entorno: &Entorno) -> (r: Result<
        Vec<DataPago>,
        Error,
    >)
        ensures
            !self.tiene_permiso_spec(entorno.caller) ==> r == Err::<Vec<DataPago>, Error>(
                Error::NoSePoseenLosPermisosSuficientes,
            ),
            self.tiene_permiso_spec(entorno.caller) && !(1 <= mes <= 12) ==> r == Err::<
                Vec<DataPago>,
                Error,
            >(Error::FechaInvalida),
            self.tiene_permiso_spec(entorno.caller) && 1 <= mes <= 12 ==> (r matches Ok(v) && v@ == datas(
                pagos_del_mes(self.pagos@, Month::de_indice(mes - 1), anio),
            )),
    {
        if !self.tiene_permiso(entorno) {
            return Err(Error::NoSePoseenLosPermisosSuficientes)
        }
        let mes_y_anio = match Self::construir_fecha_midnight(anio, mes, 1) {
            Ok(f) => f,
            Err(e) => { return Err(e) },
        };
        match self.get_pagos_del_mes_y_anio(mes_y_anio, entorno) {
            Ok(data) => Ok(datas_de(&data)),
            Err(e) => Err(e),
        }
    }
}


/// The second at which the monthly fees fall due: midnight of the tenth day
/// of the clock's month.
pub open spec fn vencimiento_mensual(ahora: u64) -> u64 {
    segundos_de(
        InstanteSpec {
            fecha: FechaSpec {
                anio: instante_de(ahora as i64).fecha.anio,
                mes: instante_de(ahora as i64).fecha.mes,
                dia: 10,
            },
            segundos: 0,
        },
    ) as u64
}

/// The tenth of the clock's month is a date that can be counted in seconds.
proof fn lema_vencimiento_mensual(ahora: u64)
    ensures
        fecha_valida(instante_de(ahora as i64).fecha.anio, instante_de(ahora as i64).fecha.mes, 10),
        instante_de(ahora as i64).fecha.anio >= 1970,
        instante_de(ahora as i64).fecha.anio <= i64::MAX,
        segundos_de(
            InstanteSpec {
                fecha: FechaSpec {
                    anio: instante_de(ahora as i64).fecha.anio,
                    mes: instante_de(ahora as i64).fecha.mes,
                    dia: 10,
                },
                segundos: 0,
            },
        ) <= u64::MAX,
{
    lema_segundos_acotados(ahora as i64);
    let f = instante_de(ahora as i64).fecha;
    let g = FechaSpec { anio: f.anio, mes: f.mes, dia: 10 };
    assert(dias_desde_epoch(g) <= dias_desde_epoch(f) + 9);
    assert(dias_desde_epoch(g) * 86400 <= (4294967295 + 9) * 86400) by (nonlinear_arith)
        requires
            dias_desde_epoch(g) <= 4294967295 + 9,
    ;
}

/// Ten days after the clock's instant is a valid instant from 1970 on, whose
/// count of seconds fits in 64 bits and is the clock's count plus ten days.
proof fn lema_diez_dias_despues(ahora: u64)
    ensures
        ({
            let i = instante_de(ahora as i64);
            let v = sumar_segundos_spec(i, 864000);
            &&& (i.segundos + 864000) / 86400 <= u32::MAX
            &&& fecha_valida(v.fecha.anio, v.fecha.mes, v.fecha.dia)
            &&& 1970 <= v.fecha.anio <= i64::MAX
            &&& segundos_de(v) == segundos_de(i) + 864000
            &&& segundos_de(v) <= u64::MAX
        }),
{
    lema_segundos_acotados(ahora as i64);
    let i = instante_de(ahora as i64);
    let q = ((i.segundos + 864000) / 86400) as nat;
    vstd::arithmetic::div_mod::lemma_fundamental_div_mod(i.segundos + 864000, 86400);
    lema_sumar_dias(i.fecha, q);
    let d = dias_desde_epoch(i.fecha);
    assert(d * 86400 <= 4294967295 * 86400) by (nonlinear_arith)
        requires
            0 <= d <= 4294967295,
    ;
}

/// A list of fees none of which belongs to member `socio_id` holds no fee of it.
proof fn lema_pagos_del_socio_vacio(pagos: Seq<Pago>, socio_id: u128)
    requires
        forall|i: int| 0 <= i < pagos.len() ==> (#[trigger] pagos[i]).socio_id != socio_id,
    ensures
        pagos_del_socio(pagos, socio_id).len() == 0,
    decreases pagos.len(),
{
    if pagos.len() > 0 {
        lema_pagos_del_socio_vacio(pagos.drop_last(), socio_id);
    }
}

impl ClubSemRust {
    /// Position of the first member, at or after position `i`, whose category has no data loaded.
    pub open spec fn sin_datos_desde(&self, i: int) -> int
        decreases self.socios@.len() - i,
    {
        if i < 0 || i >= self.socios@.len() {
            self.socios@.len() as int
        } else if !self.tiene_datos_spec(self.socios@[i].categoria.id_spec()) {
            i
        } else {
            self.sin_datos_desde(i + 1)
        }
    }

    /// The search for a member without data, started at `k`, stops at `k` or later.
    proof fn lema_sin_datos_desde_cota(&self, k: int)
        requires
            0 <= k <= self.socios@.len(),
        ensures
            self.sin_datos_desde(k) >= k,
        decreases self.socios@.len() - k,
    {
        if k < self.socios@.len() {
            self.lema_sin_datos_desde_cota(k + 1);
        }
    }

    /// Position of the first member whose category has no data loaded (the
    /// number of members when all have).
    pub open spec fn primer_socio_sin_datos(&self) -> int {
        self.sin_datos_desde(0)
    }

    /// The monthly fee of the member at position `k`.
    pub open spec fn cuota_mensual(&self, k: int, ahora: u64) -> Pago {
        Pago {
            id: (self.pagos@.len() + k) as u128,
            socio_id: (k + 1) as u128,
            fecha_de_pago: None,
            fecha_de_vencimiento: vencimiento_mensual(ahora),
            monto: self.monto_spec((k + 1) as u128, ahora) as u128,
            tiene_bonificacion: self.cumple_spec((k + 1) as u128, ahora),
        }
    }

    /// The monthly fees of the first `n` members, in order.
    pub open spec fn cuotas_mensuales(&self, n: int, ahora: u64) -> Seq<Pago> {
        Seq::new(n as nat, |k: int| self.cuota_mensual(k, ahora))
    }

    /// The fees after a monthly update by a caller with permission.
    pub open spec fn pagos_tras_actualizacion(&self, ahora: u64) -> Seq<Pago> {
        if self.es_momento_spec(ahora) {
            self.pagos@ + self.cuotas_mensuales(self.primer_socio_sin_datos(), ahora)
        } else {
            self.pagos@
        }
    }

    /// The date of the last update after a monthly update by a caller with permission.
    pub open spec fn fecha_tras_actualizacion(&self, ahora: u64) -> u64 {
        if self.es_momento_spec(ahora) && self.primer_socio_sin_datos() == self.socios@.len() {
            segundos_de(instante_de(ahora as i64)) as u64
        } else {
            self.fecha_de_la_ultima_actualizacion
        }
    }

    /// The next fee of every member that a monthly update reaches (those
    /// before the first member whose category has no data) can be computed.
    pub open spec fn cuotas_calculables(&self, ahora: u64) -> bool {
        forall|id: u128|
            1 <= id <= self.socios@.len() && id - 1 < self.primer_socio_sin_datos() ==> #[trigger] self.cuota_calculable(id, ahora)
    }

    /// When a month has begun since the last update, adds a fee falling due
    /// on the tenth of the clock's month for every member, in order of id,
    /// and records the update. It stops, without recording the update, at
    /// the first member whose category has no data. The caller needs permission.
    pub fn actualizacion_mensual(&mut self, entorno: &Entorno) -> (r: Result<(), Error>)
        requires
            old(self).wf(),
            old(self).tiene_permiso_spec(entorno.caller) && old(self).es_momento_spec(entorno.ahora)
                ==> old(self).cuotas_calculables(entorno.ahora),
        ensures
            final(self).wf(),
            !old(self).tiene_permiso_spec(entorno.caller) ==> r == Err::<(), Error>(
                Error::NoSePoseenLosPermisosSuficientes,
            ) && *final(self) == *old(self),
            old(self).tiene_permiso_spec(entorno.caller) && !old(self).es_momento_spec(entorno.ahora) ==> r
                == Err::<(), Error>(Error::NoTranscurrioElTiempoNecesarioDesdeElUltimoLlamado)
                && *final(self) == *old(self),
            old(self).tiene_permiso_spec(entorno.caller) && old(self).es_momento_spec(entorno.ahora) ==> {
                &&& final(self).mismas_tablas(old(self))
                &&& final(self).pagos@ == old(self).pagos_tras_actualizacion(entorno.ahora)
                &&& final(self).fecha_de_la_ultima_actualizacion == old(self).fecha_tras_actualizacion(
                    entorno.ahora,
                )
                &&& old(self).primer_socio_sin_datos() == old(self).socios@.len() ==> r is Ok
                &&& old(self).primer_socio_sin_datos() < old(self).socios@.len() ==> r == Err::<(), Error>(
                    Error::CategoriaSinData,
                )
            },
    {
        if !self.tiene_permiso(entorno) {
            return Err(Error::NoSePoseenLosPermisosSuficientes);
        }
        if !self.es_momento_de_otra_actualizacion(entorno) {
            return Err(Error::NoTranscurrioElTiempoNecesarioDesdeElUltimoLlamado);
        }
        let ghost ini = *self;
        let ahora = LocalDateTime::now(entorno.ahora);
        proof {
            lema_vencimiento_mensual(entorno.ahora);
            lema_segundos_acotados(entorno.ahora as i64);
        }
        let n = self.mapping_lens.socios;
        assert(self.socios.len() == self.socios@.len());
        assert(ini == *old(self));
        assert(n < u128::MAX);
        let mut i: u128 = 1;
        while i < n + 1
            invariant
                self.wf(),
                ini.wf(),
                ini == *old(self),
                ini.es_momento_spec(entorno.ahora),
                n < u128::MAX,
                ini.cuotas_calculables(entorno.ahora),
                ini.tiene_permiso_spec(entorno.caller),
                self.mismas_tablas(&ini),
                self.fecha_de_la_ultima_actualizacion == ini.fecha_de_la_ultima_actualizacion,
                n == ini.socios@.len(),
                1 <= i <= n + 1,
                self.pagos@ == ini.pagos@ + ini.cuotas_mensuales(i - 1, entorno.ahora),
                ini.primer_socio_sin_datos() == ini.sin_datos_desde(i - 1),
                ahora@ == instante_de(entorno.ahora as i64),
                ahora.local_date.wf(),
            decreases n + 1 - i,
        {
            let fecha = LocalDateTime::new(
                match LocalDate::ymd(ahora.date().year(), ahora.date().month(), 10) {
                    Ok(d) => d,
                    Err(_) => ahora.date(),
                },
                LocalTime::midnight(),
            );
            proof {
                lema_vencimiento_mensual(entorno.ahora);
                lema_segundos_acotados(entorno.ahora as i64);
                let previas = ini.cuotas_mensuales(i - 1, entorno.ahora);
                assert forall|k: int| 0 <= k < previas.len() implies (#[trigger] previas[k]).socio_id != i by {
                }
                lema_pagos_del_socio_append(ini.pagos@, previas, i);
                assert(self.cuota_calculable(i, entorno.ahora) == ini.cuota_calculable(i, entorno.ahora));
                if i - 1 < ini.primer_socio_sin_datos() {
                    assert(ini.cuota_calculable(i, entorno.ahora));
                } else {
                    ini.lema_sin_datos_desde_cota(i as int);
                    assert(!ini.tiene_datos_spec(ini.socio_spec(i).categoria.id_spec()));
                }
            }
            match self.crear_cuota_para_socio(i, fecha, entorno) {
                Ok(_) => {},
                Err(error) => {
                    assert(error == Error::CategoriaSinData);
                    assert(ini.sin_datos_desde(i - 1) == i - 1);
                    return Err(error)
                },
            }
            proof {
                assert(self.pagos@ =~= ini.pagos@ + ini.cuotas_mensuales(i as int, entorno.ahora));
            }
            i = i + 1;
        }
        proof {
            lema_segundos_acotados(entorno.ahora as i64);
        }
        self.fecha_de_la_ultima_actualizacion = ahora.to_instant().seconds();
        Ok(())
    }
}


/// The public data of a member: name, surname, national id, member id and category.
pub type DataSocio = (String, String, u32, u128, Categoria);

impl ClubSemRust {
    /// Settles, with amount `monto`, the oldest unpaid fee of member
    /// `socio_id`, after running the monthly update (whose outcome is
    /// ignored). The caller needs permission.
    pub fn registrar_nuevo_pago(&mut self, socio_id: u128, monto: u128, entorno: &Entorno) -> (r: Result<
        (),
        Error,
    >)
        requires
            old(self).wf(),
            old(self).tiene_permiso_spec(entorno.caller) && old(self).existe_socio_spec(socio_id)
                && old(self).es_momento_spec(entorno.ahora) ==> old(self).cuotas_calculables(entorno.ahora),
        ensures
            final(self).wf(),
            !old(self).tiene_permiso_spec(entorno.caller) ==> r == Err::<(), Error>(
                Error::NoSePoseenLosPermisosSuficientes,
            ) && *final(self) == *old(self),
            old(self).tiene_permiso_spec(entorno.caller) && !old(self).existe_socio_spec(socio_id) ==> r
                == Err::<(), Error>(Error::SocioNoRegistrado) && *final(self) == *old(self),
            old(self).tiene_permiso_spec(entorno.caller) && old(self).existe_socio_spec(socio_id) ==> {
                let pagos = old(self).pagos_tras_actualizacion(entorno.ahora);
                &&& final(self).mismas_tablas(old(self))
                &&& final(self).fecha_de_la_ultima_actualizacion == old(self).fecha_tras_actualizacion(
                    entorno.ahora,
                )
                &&& primer_sin_acreditar(pagos, socio_id) is None ==> r == Err::<(), Error>(
                    Error::SocioNoPoseePagosSinAcreditar,
                ) && final(self).pagos@ == pagos
                &&& primer_sin_acreditar(pagos, socio_id) matches Some(i) ==> {
                    &&& pagos[i].monto != monto ==> r == Err::<(), Error>(Error::MontoInvalido)
                        && final(self).pagos@ == pagos
                    &&& pagos[i].monto == monto ==> r is Ok && final(self).pagos@ == pagos.update(
                        i,
                        Pago {
                            fecha_de_pago: Some(segundos_de(instante_de(entorno.ahora as i64)) as u64),
                            ..pagos[i]
                        },
                    )
                }
            },
    {
        if !self.tiene_permiso(entorno) {
            return Err(Error::NoSePoseenLosPermisosSuficientes);
        }
        if !self.existe_socio_con_id(socio_id) {
            return Err(Error::SocioNoRegistrado)
        }
        match self.actualizacion_mensual(entorno) {
            Ok(_) => {},
            Err(_) => {},
        }
        let pago = match self.get_primer_pago_sin_acreditar(socio_id) {
            Some(p) => p,
            None => { return Err(Error::SocioNoPoseePagosSinAcreditar) },
        };
        if !(pago.monto == monto) {
            return Err(Error::MontoInvalido);
        };
        assert(self.pagos.len() == self.pagos@.len());
        proof {
            let i = primer_sin_acreditar(self.pagos@, socio_id)->0;
            assert(self.pagos@[i].id == i);
            assert((pago.id as usize) as int == i);
            lema_primer_sin_acreditar(self.pagos@, socio_id, 0);
            assert(self.pagos@[i].fecha_de_pago is None);
        }
        self.marcar_pago_pagado(pago.id, entorno)
    }

    /// Registers a member of `categoria` with the next member id and adds its
    /// first fee, falling due ten days after the clock's instant. The caller
    /// needs permission and the category needs its data.
    pub fn registrar_nuevo_socio(
        &mut self,
        nombre: String,
        apellido: String,
        dni: u32,
        categoria: Categoria,
        entorno: &Entorno,
    ) -> (r: Result<(), Error>)
        requires
            old(self).wf(),
            old(self).tiene_permiso_spec(entorno.caller)
                && old(self).cant_pagos_consecutivos_sin_atrasos_necesarios_para_descuento == 0
                && old(self).tiene_datos_spec(categoria.id_spec()) ==> old(self).costo_spec(
                categoria.id_spec(),
            ) * old(self).porcentaje_de_descuento_por_bonificacion <= u128::MAX,
        ensures
            final(self).wf(),
            !old(self).tiene_permiso_spec(entorno.caller) ==> r == Err::<(), Error>(
                Error::NoSePoseenLosPermisosSuficientes,
            ) && *final(self) == *old(self),
            old(self).tiene_permiso_spec(entorno.caller) && !old(self).tiene_datos_spec(categoria.id_spec())
                ==> r == Err::<(), Error>(Error::CategoriaSinData) && *final(self) == *old(self),
            old(self).tiene_permiso_spec(entorno.caller) && old(self).tiene_datos_spec(categoria.id_spec())
                ==> {
                let id = old(self).socios@.len() + 1;
                let c = old(self).costo_spec(categoria.id_spec());
                let bonificado = old(self).cant_pagos_consecutivos_sin_atrasos_necesarios_para_descuento == 0;
                let vencimiento = segundos_de(sumar_segundos_spec(instante_de(entorno.ahora as i64), 864000));
                &&& r is Ok
                &&& entorno.ahora <= limite_segundos() ==> vencimiento == entorno.ahora + 864000
                &&& final(self).socios@ == old(self).socios@.push(
                    Socio {
                        id: id as u128,
                        categoria,
                        datos_personales: DatosPersonalesSocio { nombre, apellido, dni },
                    },
                )
                &&& final(self).mapping_lens.socios == id
                &&& final(self).pagos@ == old(self).pagos@.push(
                    Pago {
                        id: old(self).pagos@.len() as u128,
                        socio_id: id as u128,
                        fecha_de_pago: None,
                        fecha_de_vencimiento: vencimiento as u64,
                        monto: (if bonificado {
                            c - c * old(self).porcentaje_de_descuento_por_bonificacion / 100
                        } else {
                            c as int
                        }) as u128,
                        tiene_bonificacion: bonificado,
                    },
                )
                &&& final(self).mismas_tablas_salvo_socios(old(self))
            },
    {
        if !self.tiene_permiso(entorno) {
            return Err(Error::NoSePoseenLosPermisosSuficientes);
        }
        if !self.categoria_tiene_sus_datos_cargados(categoria.discriminant()) {
            return Err(Error::CategoriaSinData);
        }
        let ghost ini = *self;
        assert(self.socios.len() == self.socios@.len());
        let info_personal_del_socio = DatosPersonalesSocio { nombre, apellido, dni };
        let id = self.nueva_id(TipoId::Socio);
        let socio = Socio { id, categoria, datos_personales: info_personal_del_socio };
        self.socios.push(socio);
        let mut fecha = LocalDateTime::now(entorno.ahora);
        proof {
            lema_diez_dias_despues(entorno.ahora);
            if entorno.ahora <= limite_segundos() {
                ley_segundos_de_instante(entorno.ahora as i64);
            }
            lema_segundos_acotados(entorno.ahora as i64);
            assert forall|i: int| 0 <= i < self.socios@.len() implies (#[trigger] self.socios@[i]).id == i
                + 1 by {
                if i < ini.socios@.len() {
                    assert(self.socios@[i] == ini.socios@[i]);
                }
            }
            assert forall|i: int| 0 <= i < self.pagos@.len() implies (#[trigger] self.pagos@[i]).socio_id != id by {
            }
            lema_pagos_del_socio_vacio(self.pagos@, id);
            assert(self.socio_spec(id) == socio);
        }
        let vencimiento = fecha.add_seconds(864000);
        self.crear_cuota_para_socio(id, vencimiento, entorno)
    }

    /// The state is the same but for the members, the member counter and the fees.
    pub open spec fn mismas_tablas_salvo_socios(&self, otro: &ClubSemRust) -> bool {
        &&& self.politica_de_autorizacion_activada == otro.politica_de_autorizacion_activada
        &&& self.duenio_account_id == otro.duenio_account_id
        &&& self.editores@ == otro.editores@
        &&& self.categorias_data@ == otro.categorias_data@
        &&& self.cant_pagos_consecutivos_sin_atrasos_necesarios_para_descuento
            == otro.cant_pagos_consecutivos_sin_atrasos_necesarios_para_descuento
        &&& self.porcentaje_de_descuento_por_bonificacion == otro.porcentaje_de_descuento_por_bonificacion
        &&& self.fecha_de_la_ultima_actualizacion == otro.fecha_de_la_ultima_actualizacion
    }

    /// The id of the first member, in order of id, with national id `un_dni`.
    pub fn get_id_socio_con_dni(&self, un_dni: u32) -> (r: Option<u128>)
        requires
            self.wf(),
        ensures
            r is None <==> (forall|k: int| 0 <= k < self.socios@.len() ==> (#[trigger] self.socios@[k]).datos_personales.dni != un_dni),
            r matches Some(id) ==> self.existe_socio_spec(id) && self.socio_spec(id).datos_personales.dni
                == un_dni && forall|k: int| 0 <= k < id - 1 ==> (#[trigger] self.socios@[k]).datos_personales.dni
                != un_dni,
    {
        let len = self.mapping_lens.socios;
        assert(self.socios.len() == self.socios@.len());
        let mut i: u128 = 1;
        while i < len + 1
            invariant
                self.wf(),
                len == self.socios@.len(),
                len < u128::MAX,
                1 <= i <= len + 1,
                forall|k: int| 0 <= k < i - 1 ==> (#[trigger] self.socios@[k]).datos_personales.dni != un_dni,
            decreases len + 1 - i,
        {
            let socio = match self.get_socio_con_id(i) {
                Some(s) => s,
                None => { return None },
            };
            if socio.datos_personales.dni == un_dni {
                return Some(socio.id);
            }
            i = i + 1;
        }
        None
    }

    /// A member with national id `un_dni` is registered.
    pub fn existe_socio_dni(&self, un_dni: u32) -> (r: bool)
        requires
            self.wf(),
        ensures
            r == (exists|k: int| 0 <= k < self.socios@.len() && (#[trigger] self.socios@[k]).datos_personales.dni == un_dni),
    {
        self.get_id_socio_con_dni(un_dni).is_some()
    }

    /// Name, surname, national id, id and category of member `socio_id`; the
    /// caller needs permission.
    pub fn get_data_socio_con_id(&self, socio_id: u128, entorno: &Entorno) -> (r: Result<DataSocio, Error>)
        ensures
            !self.tiene_permiso_spec(entorno.caller) ==> r == Err::<DataSocio, Error>(
                Error::NoSePoseenLosPermisosSuficientes,
            ),
            self.tiene_permiso_spec(entorno.caller) && !self.existe_socio_spec(socio_id) ==> r == Err::<
                DataSocio,
                Error,
            >(Error::SocioNoRegistrado),
            self.tiene_permiso_spec(entorno.caller) && self.existe_socio_spec(socio_id) ==> (r matches Ok(
                d,
            ) && d.0@ == self.socio_spec(socio_id).datos_personales.nombre@ && d.1@ == self.socio_spec(
                socio_id,
            ).datos_personales.apellido@ && d.2 == self.socio_spec(socio_id).datos_personales.dni && d.3
                == self.socio_spec(socio_id).id && d.4 == self.socio_spec(socio_id).categoria),
    {
        if !self.tiene_permiso(entorno) {
            return Err(Error::NoSePoseenLosPermisosSuficientes)
        }
        if !self.existe_socio_con_id(socio_id) {
            return Err(Error::SocioNoRegistrado)
        }
        match self.get_socio_con_id(socio_id) {
            Some(socio) => Ok(
                (
                    socio.datos_personales.nombre.clone(),
                    socio.datos_personales.apellido.clone(),
                    socio.datos_personales.dni,
                    socio.id,
                    socio.categoria,
                ),
            ),
            None => Err(Error::SocioNoRegistrado),
        }
    }

    /// Member `socio_id` may attend activity `id_actividad`: it is the activity
    /// that a member of category B picked, or one of the base activities of
    /// the member's category.
    pub open spec fn permitida_spec(&self, socio_id: u128, id_actividad: u32) -> bool {
        let categoria = self.socio_spec(socio_id).categoria;
        ||| (categoria matches Categoria::B { deporte_seleccionado_por_el_usuario: d } && d.id_spec() == id_actividad)
        ||| exists|k: int|
            0 <= k < self.categorias_data@[categoria.id_spec() as int].unwrap().actividades_accesibles_base@.len()
                && (#[trigger] self.categorias_data@[categoria.id_spec() as int].unwrap().actividades_accesibles_base@[k]).id_spec()
                == id_actividad
    }

    /// Whether member `socio_id` may attend activity `id_actividad`.
    pub fn socio_tiene_permitida_la_asistencia_a(&self, socio_id: u128, id_actividad: u32) -> (r: Result<
        bool,
        Error,
    >)
        requires
            self.wf(),
        ensures
            id_actividad >= 8 ==> r == Err::<bool, Error>(Error::ActividadInvalida),
            id_actividad < 8 && !self.existe_socio_spec(socio_id) ==> r == Err::<bool, Error>(
                Error::SocioNoRegistrado,
            ),
            id_actividad < 8 && self.existe_socio_spec(socio_id) && !(self.socio_spec(socio_id).categoria matches Categoria::B {
                deporte_seleccionado_por_el_usuario: d,
            } && d.id_spec() == id_actividad) && !self.tiene_datos_spec(
                self.socio_spec(socio_id).categoria.id_spec(),
            ) ==> r == Err::<bool, Error>(Error::CategoriaSinData),
            id_actividad < 8 && self.existe_socio_spec(socio_id) && ((self.socio_spec(socio_id).categoria matches Categoria::B {
                deporte_seleccionado_por_el_usuario: d,
            } && d.id_spec() == id_actividad) || self.tiene_datos_spec(
                self.socio_spec(socio_id).categoria.id_spec(),
            )) ==> r == Ok::<bool, Error>(self.permitida_spec(socio_id, id_actividad)),
    {
        if !self.existe_actividad_con_id(id_actividad) {
            return Err(Error::ActividadInvalida)
        }
        if !self.existe_socio_con_id(socio_id) {
            return Err(Error::SocioNoRegistrado)
        }
        let categoria = match self.get_socio_con_id(socio_id) {
            Some(s) => s.categoria,
            None => { return Err(Error::SocioNoRegistrado) },
        };
        match categoria {
            Categoria::B { deporte_seleccionado_por_el_usuario } => {
                if deporte_seleccionado_por_el_usuario.id() == id_actividad {
                    return Ok(true);
                }
            },
            _ => {},
        }
        let categoria_data = match self.get_categoria_datos(categoria.discriminant()) {
            Ok(d) => d,
            Err(e) => { return Err(e) },
        };
        let base = categoria_data.actividades_accesibles_base;
        let ghost no_elegida = !(categoria matches Categoria::B { deporte_seleccionado_por_el_usuario: d }
            && d.id_spec() == id_actividad);
        assert(no_elegida);
        let mut k: usize = 0;
        while k < base.len()
            invariant
                self.wf(),
                id_actividad < 8,
                self.existe_socio_spec(socio_id),
                categoria == self.socio_spec(socio_id).categoria,
                no_elegida == !(categoria matches Categoria::B { deporte_seleccionado_por_el_usuario: d }
                    && d.id_spec() == id_actividad),
                no_elegida,
                self.tiene_datos_spec(categoria.id_spec()),
                base@ == self.categorias_data@[categoria.id_spec() as int].unwrap().actividades_accesibles_base@,
                k <= base@.len(),
                forall|j: int| 0 <= j < k ==> (#[trigger] base@[j]).id_spec() != id_actividad,
            decreases base@.len() - k,
        {
            if base[k].id() == id_actividad {
                return Ok(true);
            }
            k = k + 1;
        }
        Ok(false)
    }
}

} // verus!
