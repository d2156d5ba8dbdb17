//! Membership, fee and payment registry of a sports club, with its own
//! calendar arithmetic and the monthly reports built on top of it.

pub mod cuenta;
pub mod fecha;
pub mod registro;
pub mod reportes;
pub mod registro_de_pagos;
pub mod rust_tp_final;
pub mod leyes;
pub mod leyes_cuotas;
