//! Protocol-specific definitions a message can carry.

use vstd::prelude::*;

verus! {

/// Protocol-specific information for an AMQP 1.0 message.
pub struct AMQP1MessageBinding {}

/// Protocol-specific information for an AMQP 0-9-1 message.
pub struct AMQPMessageBinding {
    pub content_encoding: Option<String>,
    pub message_type: Option<String>,
    pub binding_version: Option<String>,
}

/// Protocol-specific information for an IBM MQ message.
pub struct IBMMQMessageBinding {
    pub typ: Option<String>,
}

/// Protocol-specific information for a JMS message.
pub struct JMSMessageBinding {}

/// Protocol-specific information for an MQTT 5 message.
pub struct MQTT5MessageBinding {}

/// Protocol-specific information for an MQTT message.
pub struct MQTTMessageBinding {
    pub binding_version: Option<String>,
}

/// Protocol-specific information for a Mercure message.
pub struct MercureMessageBinding {}

/// Protocol-specific information for a NATS message.
pub struct NATSMessageBinding {}

/// Protocol-specific information for a Redis message.
pub struct RedisMessageBinding {}

/// Protocol-specific information for an SNS message.
pub struct SNSMessageBinding {}

/// Protocol-specific information for an SQS message.
pub struct SQSMessageBinding {}

/// Protocol-specific information for a STOMP message.
pub struct STOMPMessageBinding {}

/// Protocol-specific information for a Solace message.
pub struct SolaceMessageBinding {}

} // verus!
